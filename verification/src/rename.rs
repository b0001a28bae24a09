//! The structural rename: locate a dotted field path in a document tree
//! and rename the terminal key, recursing through arrays.

use vstd::prelude::*;
use crate::args::dot_split;
use crate::args::split_dots;
use crate::json::JVal;
use crate::json::JsonValue;
use crate::json::find_entry;
use crate::json::jentries_of;
use crate::json::jval_of;
use crate::json::jvals_of;
use crate::json::key_index;
use crate::json::lemma_jentries_of_index;
use crate::json::lemma_jentries_of_len;
use crate::json::lemma_jentries_of_push;
use crate::json::lemma_jentries_of_remove;
use crate::json::lemma_jentries_of_update;
use crate::json::lemma_jvals_of_index;
use crate::json::lemma_jvals_of_len;
use crate::json::lemma_key_index;

verus! {

/// Entries after binding key `k` to `v`: an existing entry for `k` is
/// overwritten in place, otherwise the entry is appended.
pub open spec fn obj_put(es: Seq<(Seq<char>, JVal)>, k: Seq<char>, v: JVal) -> Seq<
    (Seq<char>, JVal),
> {
    if key_index(es, k) >= 0 {
        es.update(key_index(es, k), (k, v))
    } else {
        es.push((k, v))
    }
}

/// Whether the path reaches, somewhere in `v`, an object that holds the
/// final segment as a key. Arrays are transparent: they do not consume a
/// segment, and every element is probed with the same path.
pub open spec fn path_matches(v: JVal, path: Seq<Seq<char>>) -> bool
    decreases v,
    via path_matches_decreases
{
    if path.len() == 0 {
        false
    } else {
        match v {
            JVal::Obj(es) => {
                let i = key_index(es, path[0]);
                if i < 0 {
                    false
                } else if path.len() == 1 {
                    true
                } else {
                    path_matches(es[i].1, path.drop_first())
                }
            },
            JVal::Arr(elems) => exists|j: int|
                0 <= j < elems.len() && path_matches(#[trigger] elems[j], path),
            _ => false,
        }
    }
}

#[via_fn]
proof fn path_matches_decreases(v: JVal, path: Seq<Seq<char>>) {
    if path.len() > 0 {
        match v {
            JVal::Obj(es) => lemma_key_index(es, path[0]),
            _ => (),
        }
    }
}

/// The tree after the rename: wherever the path matches, the terminal
/// key is removed and its value re-inserted under `leaf`; everything
/// else is left as it was.
pub open spec fn rename_val(v: JVal, path: Seq<Seq<char>>, leaf: Seq<char>) -> JVal
    decreases v,
    via rename_val_decreases
{
    if path.len() == 0 {
        v
    } else {
        match v {
            JVal::Obj(es) => {
                let i = key_index(es, path[0]);
                if i < 0 {
                    v
                } else if path.len() == 1 {
                    JVal::Obj(obj_put(es.remove(i), leaf, es[i].1))
                } else {
                    JVal::Obj(es.update(i, (path[0], rename_val(es[i].1, path.drop_first(), leaf))))
                }
            },
            JVal::Arr(elems) => JVal::Arr(rename_vals(elems, path, leaf)),
            _ => v,
        }
    }
}

#[via_fn]
proof fn rename_val_decreases(v: JVal, path: Seq<Seq<char>>, leaf: Seq<char>) {
    if path.len() > 0 {
        match v {
            JVal::Obj(es) => lemma_key_index(es, path[0]),
            _ => (),
        }
    }
}

/// Every element of an array after the rename, in order.
pub open spec fn rename_vals(s: Seq<JVal>, path: Seq<Seq<char>>, leaf: Seq<char>) -> Seq<JVal>
    decreases s,
{
    if s.len() == 0 {
        Seq::empty()
    } else {
        seq![rename_val(s[0], path, leaf)] + rename_vals(s.drop_first(), path, leaf)
    }
}

pub broadcast proof fn lemma_rename_vals_len(s: Seq<JVal>, path: Seq<Seq<char>>, leaf: Seq<char>)
    ensures
        #[trigger] rename_vals(s, path, leaf).len() == s.len(),
    decreases s.len(),
{
    if s.len() > 0 {
        lemma_rename_vals_len(s.drop_first(), path, leaf);
    }
}

pub broadcast proof fn lemma_rename_vals_index(
    s: Seq<JVal>,
    path: Seq<Seq<char>>,
    leaf: Seq<char>,
    i: int,
)
    requires
        0 <= i < s.len(),
    ensures
        #[trigger] rename_vals(s, path, leaf)[i] == rename_val(s[i], path, leaf),
    decreases s.len(),
{
    lemma_rename_vals_len(s, path, leaf);
    if i > 0 {
        lemma_rename_vals_index(s.drop_first(), path, leaf, i - 1);
    }
}

proof fn lemma_key_index_same_keys(
    a: Seq<(Seq<char>, JVal)>,
    b: Seq<(Seq<char>, JVal)>,
    k: Seq<char>,
)
    requires
        a.len() == b.len(),
        forall|j: int| 0 <= j < a.len() ==> (#[trigger] a[j]).0 == b[j].0,
    ensures
        key_index(a, k) == key_index(b, k),
    decreases a.len(),
{
    if a.len() > 0 {
        assert(a[0].0 == b[0].0);
        assert forall|j: int| 0 <= j < a.drop_first().len() implies (#[trigger] a.drop_first()[j]).0
            == b.drop_first()[j].0 by {
            assert(a[j + 1].0 == b[j + 1].0);
        }
        lemma_key_index_same_keys(a.drop_first(), b.drop_first(), k);
    }
}

/// Where the path does not match, the rename leaves the tree untouched.
pub proof fn lemma_rename_no_match(v: JVal, path: Seq<Seq<char>>, leaf: Seq<char>)
    requires
        !path_matches(v, path),
    ensures
        rename_val(v, path, leaf) == v,
    decreases v,
{
    if path.len() > 0 {
        match v {
            JVal::Obj(es) => {
                lemma_key_index(es, path[0]);
                let i = key_index(es, path[0]);
                if i >= 0 {
                    assert(path.len() > 1);
                    lemma_rename_no_match(es[i].1, path.drop_first(), leaf);
                    assert(es.update(i, (path[0], es[i].1)) =~= es);
                }
            },
            JVal::Arr(elems) => {
                lemma_rename_vals_len(elems, path, leaf);
                assert forall|j: int| 0 <= j < elems.len() implies rename_vals(elems, path, leaf)[j]
                    == elems[j] by {
                    lemma_rename_vals_index(elems, path, leaf, j);
                    assert(!path_matches(elems[j], path));
                    lemma_rename_no_match(elems[j], path, leaf);
                }
                assert(rename_vals(elems, path, leaf) =~= elems);
            },
            _ => {},
        }
    }
}

/// After a rename to a leaf name that differs from the path's final
/// segment, the old path no longer matches anywhere in a well-formed
/// tree.
pub proof fn lemma_rename_clears_match(v: JVal, path: Seq<Seq<char>>, leaf: Seq<char>)
    requires
        v.wf(),
        path.len() > 0,
        leaf != path.last(),
    ensures
        !path_matches(rename_val(v, path, leaf), path),
    decreases v,
{
    match v {
        JVal::Obj(es) => {
            lemma_key_index(es, path[0]);
            let i = key_index(es, path[0]);
            if i < 0 {
            } else if path.len() == 1 {
                assert(path[0] == path.last());
                let rem = es.remove(i);
                assert forall|j: int| 0 <= j < rem.len() implies (#[trigger] rem[j]).0
                    != path[0] by {
                    if j < i {
                        assert(rem[j] == es[j]);
                    } else {
                        assert(rem[j] == es[j + 1]);
                    }
                }
                lemma_key_index(rem, leaf);
                let es2 = obj_put(rem, leaf, es[i].1);
                assert forall|j: int| 0 <= j < es2.len() implies (#[trigger] es2[j]).0
                    != path[0] by {
                    if key_index(rem, leaf) >= 0 {
                        if j != key_index(rem, leaf) {
                            assert(es2[j] == rem[j]);
                        }
                    } else {
                        if j < rem.len() {
                            assert(es2[j] == rem[j]);
                        }
                    }
                }
                lemma_key_index(es2, path[0]);
                assert(key_index(es2, path[0]) == -1);
            } else {
                let child = rename_val(es[i].1, path.drop_first(), leaf);
                let es2 = es.update(i, (path[0], child));
                lemma_key_index_same_keys(es, es2, path[0]);
                assert(path.drop_first().last() == path.last());
                assert(es[i].1.wf());
                lemma_rename_clears_match(es[i].1, path.drop_first(), leaf);
                assert(es2[i].1 == child);
            }
        },
        JVal::Arr(elems) => {
            lemma_rename_vals_len(elems, path, leaf);
            let out = rename_vals(elems, path, leaf);
            assert forall|j: int| 0 <= j < out.len() implies !path_matches(
                #[trigger] out[j],
                path,
            ) by {
                lemma_rename_vals_index(elems, path, leaf, j);
                assert(elems[j].wf());
                lemma_rename_clears_match(elems[j], path, leaf);
            }
        },
        _ => {},
    }
}

/// The rename is idempotent: once the field has moved to a leaf name
/// other than the path's final segment, running the same rename again
/// finds no match and changes nothing.
pub proof fn lemma_rename_idempotent(v: JVal, path: Seq<Seq<char>>, leaf: Seq<char>)
    requires
        v.wf(),
        path.len() > 0,
        leaf != path.last(),
    ensures
        !path_matches(rename_val(v, path, leaf), path),
        rename_val(rename_val(v, path, leaf), path, leaf) == rename_val(v, path, leaf),
{
    lemma_rename_clears_match(v, path, leaf);
    lemma_rename_no_match(rename_val(v, path, leaf), path, leaf);
}

/// Renames a nested field in a document, in place, wherever the old
/// path matches; arrays of sub-objects along the path are traversed
/// element by element. `new_field` may be dotted: only its final
/// segment is used as the new key. Returns whether any rename occurred.
pub fn rename_nested_field(
    doc: &mut JsonValue,
    old_field_path: &Vec<String>,
    new_field: &str,
) -> (renamed: bool)
    ensures
        jval_of(*final(doc)) == rename_val(
            jval_of(*old(doc)),
            old_field_path.deep_view(),
            dot_split(new_field@).last(),
        ),
        renamed == path_matches(jval_of(*old(doc)), old_field_path.deep_view()),
{
    let new_segments = split_dots(new_field);
    let leaf = &new_segments[new_segments.len() - 1];
    proof {
        assert(leaf@ == dot_split(new_field@).last());
        assert(old_field_path.deep_view().skip(0) =~= old_field_path.deep_view());
    }
    rename_rec(doc, old_field_path, 0, leaf)
}

/// Renames the field at `path[pos..]` everywhere in `doc`, in place.
fn rename_rec(doc: &mut JsonValue, path: &Vec<String>, pos: usize, leaf: &String) -> (renamed: bool)
    requires
        pos <= path@.len(),
    ensures
        jval_of(*final(doc)) == rename_val(
            jval_of(*old(doc)),
            path.deep_view().skip(pos as int),
            leaf@,
        ),
        renamed == path_matches(jval_of(*old(doc)), path.deep_view().skip(pos as int)),
    decreases *old(doc),
{
    let ghost subpath = path.deep_view().skip(pos as int);
    if pos == path.len() {
        return false;
    }
    let key: &String = &path[pos];
    proof {
        assert(key@ == subpath[0]);
    }
    match doc {
        JsonValue::Object(entries) => {
            let ghost es0 = entries@;
            let ghost ges = jentries_of(es0);
            match find_entry(entries, key) {
                Option::None => {
                    false
                },
                Option::Some(i) => {
                    proof {
                        lemma_jentries_of_len(es0);
                        lemma_jentries_of_index(es0, i as int);
                        lemma_key_index(ges, key@);
                    }
                    if pos + 1 == path.len() {
                        let moved = entries.remove(i);
                        proof {
                            lemma_jentries_of_remove(es0, i as int);
                        }
                        let ghost es1 = entries@;
                        let ghost ges1 = jentries_of(es1);
                        match find_entry(entries, leaf) {
                            Option::Some(j) => {
                                proof {
                                    lemma_key_index(ges1, leaf@);
                                    lemma_jentries_of_len(es1);
                                    lemma_jentries_of_index(es1, j as int);
                                }
                                let slot = &mut entries[j];
                                slot.1 = moved.1;
                                proof {
                                    lemma_jentries_of_update(es1, j as int, entries@[j as int]);
                                    assert(jentries_of(entries@) =~= obj_put(
                                        ges.remove(i as int),
                                        leaf@,
                                        ges[i as int].1,
                                    ));
                                }
                            },
                            Option::None => {
                                entries.push((leaf.clone(), moved.1));
                                proof {
                                    lemma_jentries_of_push(es1, entries@[es1.len() as int]);
                                    assert(jentries_of(entries@) =~= obj_put(
                                        ges.remove(i as int),
                                        leaf@,
                                        ges[i as int].1,
                                    ));
                                }
                            },
                        }
                        true
                    } else {
                        let slot = &mut entries[i];
                        let r = rename_rec(&mut slot.1, path, pos + 1, leaf);
                        proof {
                            assert(subpath.drop_first() =~= path.deep_view().skip(pos as int + 1));
                            lemma_jentries_of_update(es0, i as int, entries@[i as int]);
                            assert(jentries_of(entries@) =~= ges.update(
                                i as int,
                                (subpath[0], rename_val(ges[i as int].1, subpath.drop_first(), leaf@)),
                            ));
                        }
                        r
                    }
                },
            }
        },
        JsonValue::Array(elems) => {
            let ghost origvec = *elems;
            let mut renamed = false;
            let mut idx: usize = 0;
            while idx < elems.len()
                invariant
                    0 <= idx <= origvec@.len(),
                    *old(doc) == JsonValue::Array(origvec),
                    elems@.len() == origvec@.len(),
                    subpath == path.deep_view().skip(pos as int),
                    pos < path@.len(),
                    forall|j: int| idx <= j < origvec@.len() ==> elems@[j] == origvec@[j],
                    forall|j: int|
                        0 <= j < idx ==> jval_of(#[trigger] elems@[j]) == rename_val(
                            jval_of(origvec@[j]),
                            subpath,
                            leaf@,
                        ),
                    renamed == exists|j: int|
                        0 <= j < idx && path_matches(jval_of(#[trigger] origvec@[j]), subpath),
                decreases elems@.len() - idx,
            {
                proof {
                    assert(elems@[idx as int] == origvec@[idx as int]);
                    assert(decreases_to!(*old(doc) => (*old(doc))->Array_0));
                    assert((*old(doc))->Array_0 == origvec);
                    assert(decreases_to!(origvec => origvec[idx as int]));
                }
                let slot = &mut elems[idx];
                let r = rename_rec(slot, path, pos, leaf);
                renamed = renamed || r;
                idx += 1;
            }
            proof {
                lemma_jvals_of_len(origvec@);
                lemma_jvals_of_len(elems@);
                lemma_rename_vals_len(jvals_of(origvec@), subpath, leaf@);
                assert forall|j: int| 0 <= j < origvec@.len() implies jvals_of(elems@)[j]
                    == rename_vals(jvals_of(origvec@), subpath, leaf@)[j] by {
                    lemma_jvals_of_index(elems@, j);
                    lemma_jvals_of_index(origvec@, j);
                    lemma_rename_vals_index(jvals_of(origvec@), subpath, leaf@, j);
                }
                assert(jvals_of(elems@) =~= rename_vals(jvals_of(origvec@), subpath, leaf@));
                let n = origvec@.len() as int;
                if renamed {
                    let j = choose|j: int|
                        0 <= j < n && path_matches(jval_of(#[trigger] origvec@[j]), subpath);
                    lemma_jvals_of_index(origvec@, j);
                    assert(path_matches(jvals_of(origvec@)[j], subpath));
                    assert(path_matches(jval_of(*old(doc)), subpath));
                } else {
                    assert forall|j: int| 0 <= j < n implies !path_matches(
                        jvals_of(origvec@)[j],
                        subpath,
                    ) by {
                        lemma_jvals_of_index(origvec@, j);
                    }
                    assert(!path_matches(jval_of(*old(doc)), subpath));
                }
            }
            renamed
        },
        _ => {
            false
        },
    }
}

} // verus!

