//! The document tree: a closed sum type for schema-less values, with a
//! mathematical model used by every contract of the library.

use vstd::prelude::*;

verus! {

/// The mathematical model of a document tree. Objects are sequences of
/// key/value entries; a key earlier in the sequence shadows a later
/// duplicate, and well-formed trees (see `JVal::wf`) have no duplicates.
pub enum JVal {
    Null,
    Bool(bool),
    Int(int),
    Num(Seq<char>),
    Str(Seq<char>),
    Arr(Seq<JVal>),
    Obj(Seq<(Seq<char>, JVal)>),
}

/// A schema-less document value: object, array, string, number, boolean
/// or null. Numbers that fit a signed 64-bit integer are held as `Int`;
/// any other numeric literal is carried verbatim as `Num` text.
pub enum JsonValue {
    Null,
    Bool(bool),
    Int(i64),
    Num(String),
    Str(String),
    Array(Vec<JsonValue>),
    Object(Vec<(String, JsonValue)>),
}

/// The model of an executable document value.
pub open spec fn jval_of(v: JsonValue) -> JVal
    decreases v,
{
    match v {
        JsonValue::Null => JVal::Null,
        JsonValue::Bool(b) => JVal::Bool(b),
        JsonValue::Int(i) => JVal::Int(i as int),
        JsonValue::Num(s) => JVal::Num(s@),
        JsonValue::Str(s) => JVal::Str(s@),
        JsonValue::Array(elems) => JVal::Arr(jvals_of(elems@)),
        JsonValue::Object(entries) => JVal::Obj(jentries_of(entries@)),
    }
}

/// The models of the elements of an array, in order.
pub open spec fn jvals_of(s: Seq<JsonValue>) -> Seq<JVal>
    decreases s,
{
    if s.len() == 0 {
        Seq::empty()
    } else {
        seq![jval_of(s[0])] + jvals_of(s.drop_first())
    }
}

/// The models of the entries of an object, in order.
pub open spec fn jentries_of(s: Seq<(String, JsonValue)>) -> Seq<(Seq<char>, JVal)>
    decreases s,
{
    if s.len() == 0 {
        Seq::empty()
    } else {
        seq![(s[0].0@, jval_of(s[0].1))] + jentries_of(s.drop_first())
    }
}

pub broadcast proof fn lemma_jvals_of_len(s: Seq<JsonValue>)
    ensures
        #[trigger] jvals_of(s).len() == s.len(),
    decreases s.len(),
{
    if s.len() > 0 {
        lemma_jvals_of_len(s.drop_first());
    }
}

pub broadcast proof fn lemma_jvals_of_index(s: Seq<JsonValue>, i: int)
    requires
        0 <= i < s.len(),
    ensures
        #[trigger] jvals_of(s)[i] == jval_of(s[i]),
    decreases s.len(),
{
    lemma_jvals_of_len(s);
    if i > 0 {
        lemma_jvals_of_index(s.drop_first(), i - 1);
    }
}

pub broadcast proof fn lemma_jentries_of_len(s: Seq<(String, JsonValue)>)
    ensures
        #[trigger] jentries_of(s).len() == s.len(),
    decreases s.len(),
{
    if s.len() > 0 {
        lemma_jentries_of_len(s.drop_first());
    }
}

pub broadcast proof fn lemma_jentries_of_index(s: Seq<(String, JsonValue)>, i: int)
    requires
        0 <= i < s.len(),
    ensures
        #[trigger] jentries_of(s)[i] == (s[i].0@, jval_of(s[i].1)),
    decreases s.len(),
{
    lemma_jentries_of_len(s);
    if i > 0 {
        lemma_jentries_of_index(s.drop_first(), i - 1);
    }
}

pub proof fn lemma_jentries_of_remove(s: Seq<(String, JsonValue)>, i: int)
    requires
        0 <= i < s.len(),
    ensures
        jentries_of(s.remove(i)) =~= jentries_of(s).remove(i),
{
    lemma_jentries_of_len(s);
    lemma_jentries_of_len(s.remove(i));
    assert forall|j: int| 0 <= j < s.len() - 1 implies jentries_of(s.remove(i))[j] == jentries_of(
        s,
    ).remove(i)[j] by {
        lemma_jentries_of_index(s.remove(i), j);
        if j < i {
            lemma_jentries_of_index(s, j);
        } else {
            lemma_jentries_of_index(s, j + 1);
        }
    }
}

pub proof fn lemma_jentries_of_update(s: Seq<(String, JsonValue)>, i: int, e: (String, JsonValue))
    requires
        0 <= i < s.len(),
    ensures
        jentries_of(s.update(i, e)) =~= jentries_of(s).update(i, (e.0@, jval_of(e.1))),
{
    lemma_jentries_of_len(s);
    lemma_jentries_of_len(s.update(i, e));
    assert forall|j: int| 0 <= j < s.len() implies jentries_of(s.update(i, e))[j] == jentries_of(
        s,
    ).update(i, (e.0@, jval_of(e.1)))[j] by {
        lemma_jentries_of_index(s.update(i, e), j);
        lemma_jentries_of_index(s, j);
    }
}

pub proof fn lemma_jentries_of_push(s: Seq<(String, JsonValue)>, e: (String, JsonValue))
    ensures
        jentries_of(s.push(e)) =~= jentries_of(s).push((e.0@, jval_of(e.1))),
{
    lemma_jentries_of_len(s);
    lemma_jentries_of_len(s.push(e));
    assert forall|j: int| 0 <= j < s.len() + 1 implies jentries_of(s.push(e))[j] == jentries_of(
        s,
    ).push((e.0@, jval_of(e.1)))[j] by {
        lemma_jentries_of_index(s.push(e), j);
        if j < s.len() {
            lemma_jentries_of_index(s, j);
        }
    }
}

/// Index of the first entry of `es` whose key is `k`, or `-1` when no
/// entry has that key.
pub open spec fn key_index(es: Seq<(Seq<char>, JVal)>, k: Seq<char>) -> int
    decreases es.len(),
{
    if es.len() == 0 {
        -1
    } else if es[0].0 == k {
        0
    } else if key_index(es.drop_first(), k) < 0 {
        -1
    } else {
        key_index(es.drop_first(), k) + 1
    }
}

/// Whether some entry of `es` has key `k`.
pub open spec fn obj_has_key(es: Seq<(Seq<char>, JVal)>, k: Seq<char>) -> bool {
    key_index(es, k) >= 0
}

pub broadcast proof fn lemma_key_index(es: Seq<(Seq<char>, JVal)>, k: Seq<char>)
    ensures
        -1 <= #[trigger] key_index(es, k) < es.len(),
        key_index(es, k) >= 0 ==> es[key_index(es, k)].0 == k,
        forall|j: int| 0 <= j < key_index(es, k) ==> (#[trigger] es[j]).0 != k,
        key_index(es, k) == -1 ==> forall|j: int| 0 <= j < es.len() ==> (#[trigger] es[j]).0 != k,
    decreases es.len(),
{
    if es.len() > 0 && es[0].0 != k {
        lemma_key_index(es.drop_first(), k);
        assert forall|j: int| 0 <= j < key_index(es, k) implies (#[trigger] es[j]).0 != k by {
            if j > 0 {
                assert(es.drop_first()[j - 1] == es[j]);
            }
        }
        if key_index(es, k) == -1 {
            assert forall|j: int| 0 <= j < es.len() implies (#[trigger] es[j]).0 != k by {
                if j > 0 {
                    assert(es.drop_first()[j - 1] == es[j]);
                }
            }
        }
    }
}

/// First index among `entries` whose key equals `key`, as `key_index`
/// gives it on the model.
pub(crate) fn find_entry(entries: &Vec<(String, JsonValue)>, key: &String) -> (r: Option<usize>)
    ensures
        match r {
            Option::Some(i) => 0 <= i < entries@.len() && key_index(
                jentries_of(entries@),
                key@,
            ) == i,
            Option::None => key_index(jentries_of(entries@), key@) == -1,
        },
{
    let ghost ges = jentries_of(entries@);
    proof {
        lemma_jentries_of_len(entries@);
    }
    let mut i: usize = 0;
    while i < entries.len()
        invariant
            0 <= i <= entries@.len(),
            ges == jentries_of(entries@),
            ges.len() == entries@.len(),
            forall|j: int| 0 <= j < i ==> (#[trigger] ges[j]).0 != key@,
        decreases entries@.len() - i,
    {
        let e = &entries[i];
        proof {
            lemma_jentries_of_index(entries@, i as int);
            lemma_key_index(ges, key@);
        }
        if e.0 == *key {
            return Option::Some(i);
        }
        i += 1;
    }
    proof {
        lemma_key_index(ges, key@);
    }
    Option::None
}

impl JVal {
    /// The value under key `k` when `self` is an object holding `k`.
    pub open spec fn lookup(self, k: Seq<char>) -> Option<JVal> {
        match self {
            JVal::Obj(es) => if key_index(es, k) >= 0 {
                Option::Some(es[key_index(es, k)].1)
            } else {
                Option::None
            },
            _ => Option::None,
        }
    }

    /// The boolean carried by a boolean node.
    pub open spec fn to_bool(self) -> Option<bool> {
        match self {
            JVal::Bool(b) => Option::Some(b),
            _ => Option::None,
        }
    }

    /// The unsigned value of an integer node, when it is in range.
    pub open spec fn to_u64(self) -> Option<u64> {
        match self {
            JVal::Int(i) => if 0 <= i <= u64::MAX {
                Option::Some(i as u64)
            } else {
                Option::None
            },
            _ => Option::None,
        }
    }

    /// The characters carried by a string node.
    pub open spec fn to_text(self) -> Option<Seq<char>> {
        match self {
            JVal::Str(s) => Option::Some(s),
            _ => Option::None,
        }
    }

    /// Well-formedness: every object along the tree has pairwise
    /// distinct keys.
    pub open spec fn wf(self) -> bool
        decreases self,
    {
        match self {
            JVal::Arr(elems) => forall|i: int|
                0 <= i < elems.len() ==> (#[trigger] elems[i]).wf(),
            JVal::Obj(es) => {
                &&& forall|i: int, j: int|
                    0 <= i < j < es.len() ==> (#[trigger] es[i]).0 != (#[trigger] es[j]).0
                &&& forall|i: int| 0 <= i < es.len() ==> (#[trigger] es[i]).1.wf()
            },
            _ => true,
        }
    }
}

impl View for JsonValue {
    type V = JVal;

    open spec fn view(&self) -> JVal {
        jval_of(*self)
    }
}

/// Every key of `x` also occurs in `y`.
pub open spec fn obj_covers(x: Seq<(Seq<char>, JVal)>, y: Seq<(Seq<char>, JVal)>) -> bool {
    forall|i: int| 0 <= i < x.len() ==> obj_has_key(y, (#[trigger] x[i]).0)
}

/// For every key of `x`, the value under its first occurrence in `x` is
/// equivalent to the value under its first occurrence in `y`.
pub open spec fn obj_firsts_equiv(x: Seq<(Seq<char>, JVal)>, y: Seq<(Seq<char>, JVal)>) -> bool
    decreases x,
{
    forall|i: int|
        0 <= i < x.len() && key_index(x, (#[trigger] x[i]).0) == i ==> jval_equiv(
            x[i].1,
            y[key_index(y, x[i].0)].1,
        )
}

/// Structural equivalence of two trees: scalars and arrays must agree
/// exactly, while objects are compared as maps — same key set, and for
/// each key the values under its first occurrence equivalent — so the
/// order of object entries does not matter.
pub open spec fn jval_equiv(a: JVal, b: JVal) -> bool
    decreases a,
{
    match a {
        JVal::Null => b is Null,
        JVal::Bool(x) => b matches JVal::Bool(y) && x == y,
        JVal::Int(x) => b matches JVal::Int(y) && x == y,
        JVal::Num(x) => b matches JVal::Num(y) && x == y,
        JVal::Str(x) => b matches JVal::Str(y) && x == y,
        JVal::Arr(x) => b matches JVal::Arr(y) && x.len() == y.len() && (forall|i: int|
            0 <= i < x.len() ==> jval_equiv(#[trigger] x[i], y[i])),
        JVal::Obj(x) => b matches JVal::Obj(y) && obj_covers(x, y) && obj_covers(y, x)
            && obj_firsts_equiv(x, y),
    }
}

/// The model keeps the shape of the value: each executable variant maps
/// to its own model variant.
pub proof fn lemma_jval_of_shape(v: JsonValue)
    ensures
        v is Null <==> jval_of(v) is Null,
        v is Bool <==> jval_of(v) is Bool,
        v is Int <==> jval_of(v) is Int,
        v is Num <==> jval_of(v) is Num,
        v is Str <==> jval_of(v) is Str,
        v is Array <==> jval_of(v) is Arr,
        v is Object <==> jval_of(v) is Obj,
{
}

/// Decides `jval_equiv` on two arrays, element by element.
fn arrays_equal(xs: &Vec<JsonValue>, ys: &Vec<JsonValue>) -> (r: bool)
    ensures
        r == jval_equiv(JVal::Arr(jvals_of(xs@)), JVal::Arr(jvals_of(ys@))),
    decreases *xs,
{
    let ghost gxs = jvals_of(xs@);
    let ghost gys = jvals_of(ys@);
    proof {
        lemma_jvals_of_len(xs@);
        lemma_jvals_of_len(ys@);
    }
    if xs.len() != ys.len() {
        return false;
    }
    let mut i: usize = 0;
    while i < xs.len()
        invariant
            gxs == jvals_of(xs@),
            gys == jvals_of(ys@),
            gxs.len() == xs@.len(),
            gys.len() == ys@.len(),
            xs@.len() == ys@.len(),
            0 <= i <= xs@.len(),
            forall|t: int| 0 <= t < i ==> jval_equiv(#[trigger] gxs[t], gys[t]),
        decreases xs@.len() - i,
    {
        proof {
            assert(decreases_to!(*xs => (*xs)[i as int]));
            lemma_jvals_of_index(xs@, i as int);
            lemma_jvals_of_index(ys@, i as int);
        }
        let r = json_equal(&xs[i], &ys[i]);
        if !r {
            assert(!jval_equiv(gxs[i as int], gys[i as int]));
            return false;
        }
        i += 1;
    }
    true
}

/// Decides `jval_equiv` on two objects: mutual key containment, and
/// equivalent values under each key's first occurrence.
fn objects_equal(xs: &Vec<(String, JsonValue)>, ys: &Vec<(String, JsonValue)>) -> (r: bool)
    ensures
        r == jval_equiv(JVal::Obj(jentries_of(xs@)), JVal::Obj(jentries_of(ys@))),
    decreases *xs,
{
    let ghost gxs = jentries_of(xs@);
    let ghost gys = jentries_of(ys@);
    proof {
        lemma_jentries_of_len(xs@);
        lemma_jentries_of_len(ys@);
    }
    let mut i: usize = 0;
    while i < xs.len()
        invariant
            gxs == jentries_of(xs@),
            gys == jentries_of(ys@),
            gxs.len() == xs@.len(),
            gys.len() == ys@.len(),
            0 <= i <= xs@.len(),
            forall|t: int| 0 <= t < i ==> obj_has_key(gys, (#[trigger] gxs[t]).0),
            forall|t: int|
                0 <= t < i && key_index(gxs, (#[trigger] gxs[t]).0) == t ==> jval_equiv(
                    gxs[t].1,
                    gys[key_index(gys, gxs[t].0)].1,
                ),
        decreases xs@.len() - i,
    {
        let e = &xs[i];
        proof {
            lemma_jentries_of_index(xs@, i as int);
        }
        match find_entry(ys, &e.0) {
            Option::None => {
                proof {
                    assert(!obj_has_key(gys, gxs[i as int].0));
                    assert(!obj_covers(gxs, gys));
                }
                return false;
            },
            Option::Some(j) => {
                match find_entry(xs, &e.0) {
                    Option::None => {
                        proof {
                            lemma_key_index(gxs, gxs[i as int].0);
                            assert(false);
                        }
                        return false;
                    },
                    Option::Some(fi) => {
                        if fi == i {
                            proof {
                                lemma_jentries_of_index(ys@, j as int);
                                assert(decreases_to!(*xs => (*xs)[i as int]));
                            }
                            let r = json_equal(&e.1, &ys[j].1);
                            if !r {
                                proof {
                                    assert(!jval_equiv(
                                        gxs[i as int].1,
                                        gys[key_index(gys, gxs[i as int].0)].1,
                                    ));
                                    assert(!obj_firsts_equiv(gxs, gys));
                                }
                                return false;
                            }
                        }
                    },
                }
            },
        }
        i += 1;
    }
    let mut j: usize = 0;
    while j < ys.len()
        invariant
            gxs == jentries_of(xs@),
            gys == jentries_of(ys@),
            gxs.len() == xs@.len(),
            gys.len() == ys@.len(),
            0 <= j <= ys@.len(),
            forall|t: int| 0 <= t < gxs.len() ==> obj_has_key(gys, (#[trigger] gxs[t]).0),
            forall|t: int|
                0 <= t < gxs.len() && key_index(gxs, (#[trigger] gxs[t]).0) == t ==> jval_equiv(
                    gxs[t].1,
                    gys[key_index(gys, gxs[t].0)].1,
                ),
            forall|t: int| 0 <= t < j ==> obj_has_key(gxs, (#[trigger] gys[t]).0),
        decreases ys@.len() - j,
    {
        let e = &ys[j];
        proof {
            lemma_jentries_of_index(ys@, j as int);
        }
        match find_entry(xs, &e.0) {
            Option::None => {
                proof {
                    assert(!obj_has_key(gxs, gys[j as int].0));
                    assert(!obj_covers(gys, gxs));
                }
                return false;
            },
            Option::Some(_) => {},
        }
        j += 1;
    }
    proof {
        assert(obj_covers(gxs, gys));
        assert(obj_covers(gys, gxs));
        assert(obj_firsts_equiv(gxs, gys));
    }
    true
}

/// Decides `jval_equiv` on two values of which at most one is an array
/// and at most one an object.
fn shallow_equal(a: &JsonValue, b: &JsonValue) -> (r: bool)
    requires
        !((*a) is Array && (*b) is Array),
        !((*a) is Object && (*b) is Object),
    ensures
        r == jval_equiv(a@, b@),
{
    proof {
        lemma_jval_of_shape(*a);
        lemma_jval_of_shape(*b);
    }
    match a {
        JsonValue::Null => match b {
            JsonValue::Null => true,
            _ => false,
        },
        JsonValue::Bool(x) => match b {
            JsonValue::Bool(y) => *x == *y,
            _ => false,
        },
        JsonValue::Int(x) => match b {
            JsonValue::Int(y) => *x == *y,
            _ => false,
        },
        JsonValue::Num(x) => match b {
            JsonValue::Num(y) => *x == *y,
            _ => false,
        },
        JsonValue::Str(x) => match b {
            JsonValue::Str(y) => *x == *y,
            _ => false,
        },
        JsonValue::Array(_) => false,
        JsonValue::Object(_) => false,
    }
}

/// Decides `jval_equiv` on two documents.
pub fn json_equal(a: &JsonValue, b: &JsonValue) -> (r: bool)
    ensures
        r == jval_equiv(a@, b@),
    decreases *a,
{
    match (a, b) {
        (JsonValue::Array(xs), JsonValue::Array(ys)) => {
            proof {
                assert(*a == JsonValue::Array(*xs));
                assert(*b == JsonValue::Array(*ys));
                assert(decreases_to!(*a => (*a)->Array_0));
            }
            arrays_equal(xs, ys)
        },
        (JsonValue::Object(xs), JsonValue::Object(ys)) => {
            proof {
                assert(*a == JsonValue::Object(*xs));
                assert(*b == JsonValue::Object(*ys));
                assert(decreases_to!(*a => (*a)->Object_0));
            }
            objects_equal(xs, ys)
        },
        _ => shallow_equal(a, b),
    }
}

impl JsonValue {
    /// Look a key up in an object node; `None` on any other node and on
    /// an absent key.
    pub fn get<'a>(&'a self, key: &String) -> (r: Option<&'a JsonValue>)
        ensures
            match r {
                Option::Some(v) => self@.lookup(key@) == Option::Some(v@),
                Option::None => self@.lookup(key@) is None,
            },
    {
        match self {
            JsonValue::Object(entries) => {
                match find_entry(entries, key) {
                    Option::Some(i) => {
                        proof {
                            lemma_jentries_of_index(entries@, i as int);
                        }
                        Option::Some(&entries[i].1)
                    },
                    Option::None => Option::None,
                }
            },
            _ => Option::None,
        }
    }

    /// The boolean carried by a boolean node.
    pub fn as_bool(&self) -> (r: Option<bool>)
        ensures
            r == self@.to_bool(),
    {
        match self {
            JsonValue::Bool(b) => Option::Some(*b),
            _ => Option::None,
        }
    }

    /// The unsigned value of a non-negative integer node.
    pub fn as_u64(&self) -> (r: Option<u64>)
        ensures
            r == self@.to_u64(),
    {
        match self {
            JsonValue::Int(i) => if *i >= 0 {
                Option::Some(*i as u64)
            } else {
                Option::None
            },
            _ => Option::None,
        }
    }

    /// The text carried by a string node.
    pub fn as_text<'a>(&'a self) -> (r: Option<&'a String>)
        ensures
            match r {
                Option::Some(s) => self@.to_text() == Option::Some(s@),
                Option::None => self@.to_text() is None,
            },
    {
        match self {
            JsonValue::Str(s) => Option::Some(s),
            _ => Option::None,
        }
    }
}

} // verus!




