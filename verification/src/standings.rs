//! The order in which the standings table lists teams under each filter.

use vstd::prelude::*;

use crate::models::Standing;
use crate::tabs::StandingsFilter;

verus! {

/// Code-point lexicographic order on text, which is how `String` orders
/// (its byte order under UTF-8 is the order of the code points): `a` sorts
/// no later than `b`.
pub open spec fn text_le(a: Seq<char>, b: Seq<char>) -> bool
    decreases a.len(),
{
    if a.len() == 0 {
        true
    } else if b.len() == 0 {
        false
    } else if a[0] < b[0] {
        true
    } else if a[0] > b[0] {
        false
    } else {
        text_le(a.drop_first(), b.drop_first())
    }
}

/// A missing sequence number sorts after every present one.
pub open spec fn rank_key(o: Option<u32>) -> u32 {
    match o {
        Some(v) => v,
        None => u32::MAX,
    }
}

/// Order on (group name, rank): by name, then by rank within a name.
pub open spec fn grouped_le(n1: Seq<char>, r1: u32, n2: Seq<char>, r2: u32) -> bool {
    (text_le(n1, n2) && n1 != n2) || (n1 == n2 && r1 <= r2)
}

/// Under filter `f`, row `a` sorts no later than row `b`: league rank for
/// the league table, (conference, conference rank) for the conference view
/// and (division, division rank) for the division view.
pub open spec fn standing_le(f: StandingsFilter, a: Standing, b: Standing) -> bool {
    match f {
        StandingsFilter::League => rank_key(a.league_sequence) <= rank_key(b.league_sequence),
        StandingsFilter::Conference => grouped_le(
            a.conference_name@,
            rank_key(a.conference_sequence),
            b.conference_name@,
            rank_key(b.conference_sequence),
        ),
        StandingsFilter::Division => grouped_le(
            a.division_name@,
            rank_key(a.division_sequence),
            b.division_name@,
            rank_key(b.division_sequence),
        ),
    }
}

/// Row `i` of `rows` is listed before row `j`: it sorts strictly earlier, or
/// the two tie and `i` came first (a stable sort).
pub open spec fn listed_before(f: StandingsFilter, rows: Seq<Standing>, i: int, j: int) -> bool {
    standing_le(f, rows[i], rows[j]) && (!standing_le(f, rows[j], rows[i]) || i < j)
}

/// `order` lists every row of `rows` exactly once, in the order a stable
/// sort by the filter's key gives.
pub open spec fn is_ranking(f: StandingsFilter, rows: Seq<Standing>, order: Seq<usize>) -> bool {
    &&& order.len() == rows.len()
    &&& forall|k: int| 0 <= k < order.len() ==> #[trigger] order[k] < rows.len()
    &&& forall|k1: int, k2: int|
        0 <= k1 < k2 < order.len() ==> listed_before(
            f,
            rows,
            #[trigger] order[k1] as int,
            #[trigger] order[k2] as int,
        )
}

proof fn lemma_text_le_total(a: Seq<char>, b: Seq<char>)
    ensures
        text_le(a, b) || text_le(b, a),
        text_le(a, b) && text_le(b, a) ==> a == b,
    decreases a.len(),
{
    if a.len() > 0 && b.len() > 0 && a[0] == b[0] {
        lemma_text_le_total(a.drop_first(), b.drop_first());
        if text_le(a, b) && text_le(b, a) {
            assert(a =~= seq![a[0]] + a.drop_first());
            assert(b =~= seq![b[0]] + b.drop_first());
        }
    }
}

proof fn lemma_text_le_transitive(a: Seq<char>, b: Seq<char>, c: Seq<char>)
    requires
        text_le(a, b),
        text_le(b, c),
    ensures
        text_le(a, c),
    decreases a.len(),
{
    if a.len() > 0 && b.len() > 0 && c.len() > 0 {
        if a[0] == b[0] && b[0] == c[0] {
            lemma_text_le_transitive(a.drop_first(), b.drop_first(), c.drop_first());
        }
    }
}

/// Under every filter the row order is total and transitive, so sorting by
/// it is well defined.
pub proof fn lemma_standing_le_preorder(f: StandingsFilter, a: Standing, b: Standing, c: Standing)
    ensures
        standing_le(f, a, a),
        standing_le(f, a, b) || standing_le(f, b, a),
        standing_le(f, a, b) && standing_le(f, b, c) ==> standing_le(f, a, c),
{
    match f {
        StandingsFilter::League => {},
        StandingsFilter::Conference => {
            lemma_grouped(a.conference_name@, b.conference_name@, c.conference_name@);
        },
        StandingsFilter::Division => {
            lemma_grouped(a.division_name@, b.division_name@, c.division_name@);
        },
    }
}

proof fn lemma_grouped(a: Seq<char>, b: Seq<char>, c: Seq<char>)
    ensures
        text_le(a, b) || text_le(b, a),
        text_le(a, b) && text_le(b, a) ==> a == b,
        text_le(a, b) && text_le(b, c) ==> text_le(a, c),
        text_le(b, c) && text_le(c, b) ==> b == c,
        text_le(a, c) && text_le(c, a) ==> a == c,
{
    lemma_text_le_total(a, b);
    lemma_text_le_total(b, c);
    lemma_text_le_total(a, c);
    if text_le(a, b) && text_le(b, c) {
        lemma_text_le_transitive(a, b, c);
    }
}

/// Code-point order of two strings: whether `a` sorts no later than `b`.
pub fn text_le_exec(a: &str, b: &str) -> (r: bool)
    ensures
        r == text_le(a@, b@),
{
    let la = a.unicode_len();
    let lb = b.unicode_len();
    let mut i: usize = 0;
    assert(a@.skip(0) =~= a@);
    assert(b@.skip(0) =~= b@);
    while i < la && i < lb
        invariant
            la == a@.len(),
            lb == b@.len(),
            i <= la,
            i <= lb,
            text_le(a@, b@) == text_le(a@.skip(i as int), b@.skip(i as int)),
        decreases la - i,
    {
        let ca = a.get_char(i);
        let cb = b.get_char(i);
        if ca < cb {
            return true;
        }
        if ca > cb {
            return false;
        }
        assert(a@.skip(i as int).drop_first() =~= a@.skip(i + 1));
        assert(b@.skip(i as int).drop_first() =~= b@.skip(i + 1));
        i = i + 1;
    }
    la <= lb
}

fn rank_key_exec(o: Option<u32>) -> (r: u32)
    ensures
        r == rank_key(o),
{
    match o {
        Some(v) => v,
        None => u32::MAX,
    }
}

fn grouped_le_exec(n1: &String, r1: u32, n2: &String, r2: u32) -> (r: bool)
    ensures
        r == grouped_le(n1@, r1, n2@, r2),
{
    let same = *n1 == *n2;
    if same {
        r1 <= r2
    } else {
        text_le_exec(n1.as_str(), n2.as_str())
    }
}

/// Whether, under filter `f`, row `a` sorts no later than row `b`.
pub fn standing_le_exec(f: StandingsFilter, a: &Standing, b: &Standing) -> (r: bool)
    ensures
        r == standing_le(f, *a, *b),
{
    match f {
        StandingsFilter::League => rank_key_exec(a.league_sequence) <= rank_key_exec(
            b.league_sequence,
        ),
        StandingsFilter::Conference => grouped_le_exec(
            &a.conference_name,
            rank_key_exec(a.conference_sequence),
            &b.conference_name,
            rank_key_exec(b.conference_sequence),
        ),
        StandingsFilter::Division => grouped_le_exec(
            &a.division_name,
            rank_key_exec(a.division_sequence),
            &b.division_name,
            rank_key_exec(b.division_sequence),
        ),
    }
}

/// The positions of `rows` in the order the standings table lists them
/// under filter `f`: a stable sort by the filter's key.
pub fn standings_order(f: StandingsFilter, rows: &Vec<Standing>) -> (order: Vec<usize>)
    ensures
        is_ranking(f, rows@, order@),
{
    let n = rows.len();
    let mut order: Vec<usize> = Vec::new();
    let mut k: usize = 0;
    while k < n
        invariant
            n == rows@.len(),
            k <= n,
            order@.len() == k,
            forall|q: int| 0 <= q < order@.len() ==> #[trigger] order@[q] < k,
            forall|k1: int, k2: int|
                0 <= k1 < k2 < order@.len() ==> listed_before(
                    f,
                    rows@,
                    #[trigger] order@[k1] as int,
                    #[trigger] order@[k2] as int,
                ),
        decreases n - k,
    {
        let mut p: usize = 0;
        while p < order.len() && standing_le_exec(f, &rows[order[p]], &rows[k])
            invariant
                n == rows@.len(),
                k < n,
                order@.len() == k,
                p <= order@.len(),
                forall|q: int| 0 <= q < order@.len() ==> #[trigger] order@[q] < k,
                forall|q: int|
                    0 <= q < p ==> standing_le(f, rows@[#[trigger] order@[q] as int], rows@[k as int]),
            decreases order@.len() - p,
        {
            p = p + 1;
        }
        let ghost old_order = order@;
        proof {
            assert forall|q: int| p <= q < old_order.len() implies !standing_le(
                f,
                rows@[#[trigger] old_order[q] as int],
                rows@[k as int],
            ) by {
                if q > p as int {
                    assert(listed_before(f, rows@, old_order[p as int] as int, old_order[q] as int));
                    lemma_standing_le_preorder(
                        f,
                        rows@[old_order[p as int] as int],
                        rows@[old_order[q] as int],
                        rows@[k as int],
                    );
                }
            }
        }
        order.insert(p, k);
        proof {
            let new_order = order@;
            assert forall|q: int| 0 <= q < new_order.len() implies #[trigger] new_order[q] < k + 1 by {
                if q < p {
                    assert(new_order[q] == old_order[q]);
                } else if q > p {
                    assert(new_order[q] == old_order[q - 1]);
                }
            }
            assert forall|k1: int, k2: int|
                0 <= k1 < k2 < new_order.len() implies listed_before(
                f,
                rows@,
                #[trigger] new_order[k1] as int,
                #[trigger] new_order[k2] as int,
            ) by {
                let i1 = new_order[k1] as int;
                let i2 = new_order[k2] as int;
                if k1 < p && k2 < p {
                    assert(new_order[k1] == old_order[k1]);
                    assert(new_order[k2] == old_order[k2]);
                } else if k1 > p && k2 > p {
                    assert(new_order[k1] == old_order[k1 - 1]);
                    assert(new_order[k2] == old_order[k2 - 1]);
                } else if k1 < p && k2 > p {
                    assert(new_order[k1] == old_order[k1]);
                    assert(new_order[k2] == old_order[k2 - 1]);
                } else if k1 == p {
                    assert(new_order[k2] == old_order[k2 - 1]);
                    assert(i1 == k);
                    assert(!standing_le(f, rows@[i2], rows@[k as int]));
                    lemma_standing_le_preorder(f, rows@[i2], rows@[k as int], rows@[k as int]);
                } else {
                    assert(k2 == p);
                    assert(new_order[k1] == old_order[k1]);
                    assert(i2 == k);
                    assert(standing_le(f, rows@[i1], rows@[k as int]));
                    assert(i1 < k);
                }
            }
        }
        k = k + 1;
    }
    order
}

} // verus!
