//! Convenience accessors: fetch a typed column of a batch by a dotted path
//! given as one string.
use vstd::prelude::*;

use crate::batch::{Batch, ColV, Column, Int32Column, ListColumn};
use crate::resolve::{resolve_path, resolve_path_exec};

verus! {

/// The index of the first `.` in `s`, or `-1`.
pub open spec fn find_dot(s: Seq<char>) -> int
    decreases s.len(),
{
    if s.len() == 0 {
        -1
    } else if s[0] == '.' {
        0
    } else {
        let r = find_dot(s.drop_first());
        if r < 0 {
            -1
        } else {
            r + 1
        }
    }
}

/// The segments of a dotted path: the text split at every `.`.
pub open spec fn split_dots_spec(s: Seq<char>) -> Seq<Seq<char>>
    decreases s.len(),
{
    let i = find_dot(s);
    if i < 0 || i >= s.len() {
        seq![s]
    } else {
        seq![s.take(i)] + split_dots_spec(s.skip(i + 1))
    }
}

proof fn lemma_find_dot(s: Seq<char>)
    ensures
        find_dot(s) >= 0 ==> 0 <= find_dot(s) < s.len() && s[find_dot(s)] == '.' && (forall|j: int|
            0 <= j < find_dot(s) ==> #[trigger] s[j] != '.'),
        find_dot(s) < 0 ==> forall|j: int| 0 <= j < s.len() ==> #[trigger] s[j] != '.',
    decreases s.len(),
{
    if s.len() > 0 && s[0] != '.' {
        lemma_find_dot(s.drop_first());
        let r = find_dot(s.drop_first());
        if r >= 0 {
            assert forall|j: int| 0 <= j < r + 1 implies #[trigger] s[j] != '.' by {
                if j > 0 {
                    assert(s[j] == s.drop_first()[j - 1]);
                }
            }
        } else {
            assert forall|j: int| 0 <= j < s.len() implies #[trigger] s[j] != '.' by {
                if j > 0 {
                    assert(s[j] == s.drop_first()[j - 1]);
                }
            }
        }
    }
}

/// Splits a dotted path into its segments.
#[verifier::loop_isolation(false)]
pub fn split_dots(s: &str) -> (r: Vec<String>)
    ensures
        r.deep_view() == split_dots_spec(s@),
{
    let n = s.unicode_len();
    let mut segs: Vec<String> = Vec::new();
    let mut start: usize = 0;
    let mut p: usize = 0;
    proof {
        assert(s@.skip(0) =~= s@);
        assert(segs.deep_view() =~= Seq::<Seq<char>>::empty());
    }
    while p < n
        invariant
            0 <= start <= p <= n,
            n == s@.len(),
            split_dots_spec(s@) =~= segs.deep_view() + split_dots_spec(s@.skip(start as int)),
            forall|j: int| start <= j < p ==> #[trigger] s@[j] != '.',
        decreases n - p,
    {
        if s.get_char(p) == '.' {
            let seg = s.substring_char(start, p);
            let ghost old_segs = segs.deep_view();
            segs.push(String::from_str(seg));
            proof {
                let t = s@.skip(start as int);
                lemma_find_dot(t);
                assert(t[p - start] == s@[p as int]);
                assert(find_dot(t) == p - start) by {
                    if find_dot(t) < 0 {
                        assert(t[p - start] != '.');
                    } else if find_dot(t) < p - start {
                        assert(s@[start + find_dot(t)] == t[find_dot(t)]);
                    } else if find_dot(t) > p - start {
                        assert(t[p - start] != '.');
                    }
                }
                assert(t.take(p - start) =~= seg@);
                assert(t.skip(p - start + 1) =~= s@.skip(p + 1));
                assert(split_dots_spec(t) == seq![t.take(p - start)] + split_dots_spec(
                    t.skip(p - start + 1),
                ));
                assert(segs.deep_view() + split_dots_spec(s@.skip(p + 1)) =~= old_segs + (seq![
                    seg@] + split_dots_spec(s@.skip(p + 1))));
            }
            p = p + 1;
            start = p;
        } else {
            p = p + 1;
        }
    }
    let seg = s.substring_char(start, n);
    let ghost old_segs = segs.deep_view();
    segs.push(String::from_str(seg));
    proof {
        lemma_find_dot(s@.skip(start as int));
        assert(find_dot(s@.skip(start as int)) < 0) by {
            let t = s@.skip(start as int);
            if find_dot(t) >= 0 {
                assert(t[find_dot(t)] == '.');
                assert(t[find_dot(t)] == s@[start + find_dot(t)]);
            }
        }
        assert(split_dots_spec(s@.skip(start as int)) == seq![s@.skip(start as int)]);
        assert(seg@ =~= s@.skip(start as int));
        assert(segs.deep_view() =~= old_segs + seq![s@.skip(start as int)]);
    }
    segs
}

/// Fetches the 32-bit integer column a dotted path names, descending into a
/// struct column for a second segment; `None` when the path does not resolve
/// to such a column.
pub fn get_int32_column(record_batch: &Batch, path: &str) -> (r: Option<Int32Column>)
    requires
        record_batch@.wf(),
    ensures
        match r {
            Some(c) => resolve_path(record_batch@, split_dots_spec(path@)) == Ok::<
                ColV,
                crate::errors::ErrV,
            >(ColV::Int32(c@)),
            None => !(resolve_path(record_batch@, split_dots_spec(path@)) matches Ok(c2)
                && c2 is Int32),
        },
{
    let parts = split_dots(path);
    match resolve_path_exec(record_batch, &parts) {
        Ok(Column::Int32(c)) => Some(c),
        _ => None,
    }
}

/// Fetches the list column a dotted path names.
pub fn get_list_array(record_batch: &Batch, path: &str) -> (r: Option<ListColumn>)
    requires
        record_batch@.wf(),
    ensures
        match r {
            Some(c) => resolve_path(record_batch@, split_dots_spec(path@)) == Ok::<
                ColV,
                crate::errors::ErrV,
            >(ColV::List(c@)),
            None => !(resolve_path(record_batch@, split_dots_spec(path@)) matches Ok(c2)
                && c2 is List),
        },
{
    let parts = split_dots(path);
    match resolve_path_exec(record_batch, &parts) {
        Ok(Column::List(c)) => Some(c),
        _ => None,
    }
}

} // verus!
