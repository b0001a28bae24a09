//! Dotted field paths: splitting on `.`, and the shape validation that
//! must pass before any document is touched.

use vstd::prelude::*;

verus! {

/// The run configuration: where the table lives, which field moves
/// where, and how the scan pages.
#[derive(Debug)]
pub struct Args {
    pub db_url: String,
    pub table_name: String,
    pub old_field: String,
    pub new_field: String,
    pub dry_run: bool,
    pub limit: usize,
}

/// Why a pair of dotted paths was rejected before any request was made.
#[derive(Debug)]
pub enum PathShapeError {
    /// The two paths have a different number of segments.
    DepthMismatch { old_depth: usize, new_depth: usize },
    /// The paths differ in a segment before the last one; `index` is the
    /// first position where they disagree.
    ParentMismatch { index: usize, old_segment: String, new_segment: String },
}

/// A validated pair of paths: the old path's segments, and the new leaf
/// name that replaces the old path's final segment.
pub struct PathSpec {
    pub old_segments: Vec<String>,
    pub new_leaf: String,
}

/// Splitting a character sequence on `'.'`: one segment per stretch
/// between dots, empty stretches included, so the result always holds at
/// least one segment.
pub open spec fn dot_split(s: Seq<char>) -> Seq<Seq<char>>
    decreases s.len(),
{
    if s.len() == 0 {
        seq![Seq::<char>::empty()]
    } else if s[0] == '.' {
        seq![Seq::<char>::empty()] + dot_split(s.drop_first())
    } else {
        let rest = dot_split(s.drop_first());
        rest.update(0, seq![s[0]] + rest[0])
    }
}

pub broadcast proof fn lemma_dot_split_len(s: Seq<char>)
    ensures
        #[trigger] dot_split(s).len() >= 1,
    decreases s.len(),
{
    if s.len() > 0 {
        lemma_dot_split_len(s.drop_first());
    }
}

/// Peeling the first segment off a split: if the first dot of `s` stands
/// at `j`, the split is the stretch before `j` followed by the split of
/// what comes after `j`; with no dot at all, `s` is its own only segment.
pub proof fn lemma_dot_split_at(s: Seq<char>, j: int)
    requires
        0 <= j <= s.len(),
        forall|k: int| 0 <= k < j ==> s[k] != '.',
        j == s.len() || s[j] == '.',
    ensures
        j == s.len() ==> dot_split(s) == seq![s],
        j < s.len() ==> dot_split(s) == seq![s.take(j)] + dot_split(s.skip(j + 1)),
    decreases j,
{
    lemma_dot_split_len(s);
    if j == 0 {
        if s.len() == 0 {
            assert(dot_split(s) =~~= seq![s]);
        } else {
            assert(s[0] == '.');
            assert(s.drop_first() =~= s.skip(1));
            assert(dot_split(s) =~~= seq![s.take(0)] + dot_split(s.skip(1)));
        }
    } else {
        assert(s[0] != '.');
        let d = s.drop_first();
        lemma_dot_split_at(d, j - 1);
        lemma_dot_split_len(d);
        let rest = dot_split(d);
        if j == s.len() {
            assert(rest == seq![d]);
            assert(seq![s[0]] + rest[0] =~= s);
            assert(dot_split(s) =~~= seq![s]);
        } else {
            assert(rest == seq![d.take(j - 1)] + dot_split(d.skip(j)));
            assert(seq![s[0]] + rest[0] =~= s.take(j));
            assert(d.skip(j) =~= s.skip(j + 1));
            assert(dot_split(s) =~~= seq![s.take(j)] + dot_split(s.skip(j + 1)));
        }
    }
}

/// Splits a dotted string into its segments, as `dot_split` gives them.
pub fn split_dots(s: &str) -> (segs: Vec<String>)
    ensures
        segs.deep_view() == dot_split(s@),
        segs@.len() >= 1,
{
    let n = s.unicode_len();
    let mut segs: Vec<String> = Vec::new();
    proof {
        assert(s@.skip(0) =~= s@);
        assert(segs.deep_view() =~~= Seq::<Seq<char>>::empty());
        assert(dot_split(s@) =~~= segs.deep_view() + dot_split(s@.skip(0)));
    }
    let mut start: usize = 0;
    let mut i: usize = 0;
    while i < n
        invariant
            0 <= start as int <= i as int <= n as int,
            n as nat == s@.len(),
            dot_split(s@) == segs.deep_view() + dot_split(s@.skip(start as int)),
            forall|k: int| start <= k < i ==> s@[k] != '.',
        decreases n - i,
    {
        let c = s.get_char(i);
        if c == '.' {
            let seg = s.substring_char(start, i).to_owned();
            proof {
                let tail = s@.skip(start as int);
                assert forall|k: int| 0 <= k < i - start implies tail[k] != '.' by {
                    assert(s@[k + start] != '.');
                }
                lemma_dot_split_at(tail, i - start);
                assert(tail.take(i - start) =~= s@.subrange(start as int, i as int));
                assert(tail.skip(i - start + 1) =~= s@.skip(i + 1));
            }
            let ghost old_dv = segs.deep_view();
            segs.push(seg);
            proof {
                assert(segs.deep_view() =~~= old_dv + seq![s@.subrange(start as int, i as int)]);
                assert(segs.deep_view() + dot_split(s@.skip(i + 1)) =~~= old_dv + dot_split(
                    s@.skip(start as int),
                ));
            }
            start = i + 1;
        }
        i += 1;
    }
    let seg = s.substring_char(start, n).to_owned();
    proof {
        let tail = s@.skip(start as int);
        assert forall|k: int| 0 <= k < tail.len() implies tail[k] != '.' by {
            assert(s@[k + start] != '.');
        }
        lemma_dot_split_at(tail, tail.len() as int);
        assert(tail =~= s@.subrange(start as int, n as int));
    }
    let ghost old_dv = segs.deep_view();
    segs.push(seg);
    proof {
        assert(segs.deep_view() =~~= old_dv + seq![s@.skip(start as int)]);
        assert(segs.deep_view() =~~= dot_split(s@));
    }
    segs
}

/// Validates a pair of dotted paths: both must have the same depth and
/// agree on every segment before the last. On success the old path's
/// segments and the new path's leaf come back.
pub fn validate_field_paths(old_field: &str, new_field: &str) -> (r: Result<
    PathSpec,
    PathShapeError,
>)
    ensures
        ({
            let op = dot_split(old_field@);
            let np = dot_split(new_field@);
            match r {
                Result::Ok(spec) => {
                    &&& op.len() == np.len()
                    &&& forall|k: int| 0 <= k < op.len() - 1 ==> op[k] == np[k]
                    &&& spec.old_segments.deep_view() == op
                    &&& spec.new_leaf@ == np.last()
                },
                Result::Err(PathShapeError::DepthMismatch { old_depth, new_depth }) => {
                    &&& op.len() != np.len()
                    &&& old_depth == op.len()
                    &&& new_depth == np.len()
                },
                Result::Err(PathShapeError::ParentMismatch { index, old_segment, new_segment }) => {
                    &&& op.len() == np.len()
                    &&& 0 <= index < op.len() - 1
                    &&& op[index as int] != np[index as int]
                    &&& forall|k: int| 0 <= k < index ==> op[k] == np[k]
                    &&& old_segment@ == op[index as int]
                    &&& new_segment@ == np[index as int]
                },
            }
        }),
{
    let op = split_dots(old_field);
    let np = split_dots(new_field);
    if op.len() != np.len() {
        return Result::Err(
            PathShapeError::DepthMismatch { old_depth: op.len(), new_depth: np.len() },
        );
    }
    let mut k: usize = 0;
    while k < op.len() - 1
        invariant
            op@.len() >= 1,
            op@.len() == np@.len(),
            op.deep_view() == dot_split(old_field@),
            np.deep_view() == dot_split(new_field@),
            0 <= k as int <= op@.len(),
            forall|j: int| 0 <= j < k ==> op.deep_view()[j] == np.deep_view()[j],
        decreases op@.len() - k,
    {
        if !(op[k] == np[k]) {
            return Result::Err(
                PathShapeError::ParentMismatch {
                    index: k,
                    old_segment: op[k].clone(),
                    new_segment: np[k].clone(),
                },
            );
        }
        k += 1;
    }
    let new_leaf = np[np.len() - 1].clone();
    proof {
        assert(new_leaf@ == np.deep_view().last());
    }
    Result::Ok(PathSpec { old_segments: op, new_leaf })
}

} // verus!
