use vstd::prelude::*;

verus! {

/// Number of bytes in the first line of `d`: everything before the first
/// line feed, or all of `d` if it has none.
pub open spec fn first_line_len(d: Seq<u8>) -> int
    decreases d.len(),
{
    if d.len() == 0 {
        0
    } else if d[0] == 10u8 {
        0
    } else {
        1 + first_line_len(d.skip(1))
    }
}

pub proof fn lemma_first_line_len_bounds(d: Seq<u8>)
    ensures
        0 <= first_line_len(d) <= d.len(),
        forall|m: int| 0 <= m < first_line_len(d) ==> d[m] != 10u8,
        first_line_len(d) < d.len() ==> d[first_line_len(d)] == 10u8,
    decreases d.len(),
{
    if d.len() > 0 && d[0] != 10u8 {
        lemma_first_line_len_bounds(d.skip(1));
        assert forall|m: int| 0 <= m < first_line_len(d) implies d[m] != 10u8 by {
            if m > 0 {
                assert(d.skip(1)[m - 1] != 10u8);
            }
        }
    }
}

/// The first line of `d`, with a trailing carriage return removed, as a
/// text reader of the member would hand it out.
pub open spec fn first_line(d: Seq<u8>) -> Seq<u8> {
    let raw = d.take(first_line_len(d));
    if raw.len() > 0 && raw.last() == 13u8 {
        raw.drop_last()
    } else {
        raw
    }
}

/// The exact first line that marks a partial patch: the bytes of
/// `type "partial"`.
pub open spec fn partial_marker() -> Seq<u8> {
    seq![116u8, 121u8, 112u8, 101u8, 32u8, 34u8, 112u8, 97u8, 114u8, 116u8, 105u8, 97u8, 108u8, 34u8]
}

/// Whether the manifest member's first line declares a partial patch.
pub open spec fn manifest_is_partial(d: Seq<u8>) -> bool {
    first_line(d) == partial_marker()
}

/// Returns whether the first line of the manifest member is exactly
/// `type "partial"`; any other first line, including an empty member, is not
/// a partial marker.
pub fn is_partial_manifest(d: &Vec<u8>) -> (r: bool)
    ensures
        r == manifest_is_partial(d@),
{
    proof {
        lemma_first_line_len_bounds(d@);
    }
    let len = d.len();
    let mut n: usize = 0;
    while n < len && d[n] != 10u8
        invariant
            len == d@.len(),
            n <= len,
            forall|m: int| 0 <= m < n ==> d@[m] != 10u8,
        decreases len - n,
    {
        n = n + 1;
    }
    assert(n == first_line_len(d@));
    let mut end = n;
    if end > 0 && d[end - 1] == 13u8 {
        end = end - 1;
    }
    proof {
        assert(d@.take(n as int).len() == n);
        if n > 0 && d@[n - 1] == 13u8 {
            assert(first_line(d@) =~= d@.take(n as int).drop_last());
            assert(first_line(d@) =~= d@.take(end as int));
        } else {
            assert(first_line(d@) =~= d@.take(end as int));
        }
    }
    if end != 14 {
        proof {
            assert(first_line(d@).len() == end);
            assert(partial_marker().len() == 14);
        }
        return false;
    }
    let r = d[0] == 116 && d[1] == 121 && d[2] == 112 && d[3] == 101 && d[4] == 32 && d[5] == 34
        && d[6] == 112 && d[7] == 97 && d[8] == 114 && d[9] == 116 && d[10] == 105 && d[11] == 97
        && d[12] == 108 && d[13] == 34;
    proof {
        if r {
            assert(first_line(d@) =~= partial_marker());
        } else {
            assert(first_line(d@) != partial_marker());
        }
    }
    r
}

} // verus!
