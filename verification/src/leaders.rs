//! The stat leaders the API returns, keyed by category.

use vstd::prelude::*;

use crate::models::StatLeader;

verus! {

/// One category of the leaders response and its ranked players.
#[derive(Debug, Clone, PartialEq)]
pub struct LeaderEntry {
    pub category: String,
    pub leaders: Vec<StatLeader>,
}

/// Every category returned by one leaders request. The API keys its answer
/// by category name, so no name occurs twice (`wf`); the boards built here
/// keep that, and of a board that broke it the first entry would be read.
#[derive(Debug, Clone, PartialEq)]
pub struct LeaderBoard {
    pub entries: Vec<LeaderEntry>,
}

/// The leaders listed under `key`: those of the first entry with that
/// category name, or none.
pub open spec fn leaders_under(entries: Seq<LeaderEntry>, key: Seq<char>) -> Seq<StatLeader>
    decreases entries.len(),
{
    if entries.len() == 0 {
        Seq::empty()
    } else if entries[0].category@ == key {
        entries[0].leaders@
    } else {
        leaders_under(entries.drop_first(), key)
    }
}

/// No category name occurs twice.
pub open spec fn distinct_categories(entries: Seq<LeaderEntry>) -> bool {
    forall|i: int, j: int|
        0 <= i < j < entries.len() ==> #[trigger] entries[i].category@ != #[trigger] entries[j].category@
}

proof fn lemma_leaders_under_first(entries: Seq<LeaderEntry>, key: Seq<char>, i: int)
    requires
        0 <= i < entries.len(),
        entries[i].category@ == key,
        forall|j: int| 0 <= j < i ==> #[trigger] entries[j].category@ != key,
    ensures
        leaders_under(entries, key) == entries[i].leaders@,
    decreases i,
{
    if i > 0 {
        let rest = entries.drop_first();
        assert(entries[0].category@ != key);
        assert forall|j: int| 0 <= j < i - 1 implies #[trigger] rest[j].category@ != key by {
            assert(rest[j] == entries[j + 1]);
        }
        lemma_leaders_under_first(rest, key, i - 1);
    }
}

proof fn lemma_leaders_under_absent(entries: Seq<LeaderEntry>, key: Seq<char>)
    requires
        forall|j: int| 0 <= j < entries.len() ==> #[trigger] entries[j].category@ != key,
    ensures
        leaders_under(entries, key) == Seq::<StatLeader>::empty(),
    decreases entries.len(),
{
    if entries.len() > 0 {
        let rest = entries.drop_first();
        assert(entries[0].category@ != key);
        assert forall|j: int| 0 <= j < rest.len() implies #[trigger] rest[j].category@ != key by {
            assert(rest[j] == entries[j + 1]);
        }
        lemma_leaders_under_absent(rest, key);
    }
}

proof fn lemma_leaders_under_agree(a: Seq<LeaderEntry>, b: Seq<LeaderEntry>, key: Seq<char>)
    requires
        a.len() == b.len(),
        forall|i: int| 0 <= i < a.len() ==> #[trigger] a[i].category@ == b[i].category@,
        forall|i: int| 0 <= i < a.len() && #[trigger] a[i].category@ == key ==> a[i].leaders@ == b[i].leaders@,
    ensures
        leaders_under(a, key) == leaders_under(b, key),
    decreases a.len(),
{
    if a.len() > 0 {
        assert(a[0].category@ == b[0].category@);
        let (ra, rb) = (a.drop_first(), b.drop_first());
        assert forall|i: int| 0 <= i < ra.len() implies #[trigger] ra[i].category@ == rb[i].category@ by {
            assert(ra[i] == a[i + 1] && rb[i] == b[i + 1]);
        }
        assert forall|i: int| 0 <= i < ra.len() && #[trigger] ra[i].category@ == key implies ra[i].leaders@
            == rb[i].leaders@ by {
            assert(ra[i] == a[i + 1] && rb[i] == b[i + 1]);
        }
        lemma_leaders_under_agree(ra, rb, key);
    }
}

proof fn lemma_leaders_under_push(a: Seq<LeaderEntry>, e: LeaderEntry, key: Seq<char>)
    requires
        e.category@ != key,
    ensures
        leaders_under(a.push(e), key) == leaders_under(a, key),
    decreases a.len(),
{
    if a.len() == 0 {
        assert(a.push(e)[0] == e);
        assert(a.push(e).drop_first() =~= Seq::<LeaderEntry>::empty());
        assert(leaders_under(a.push(e).drop_first(), key) == Seq::<StatLeader>::empty());
    } else {
        assert(a.push(e)[0] == a[0]);
        assert(a.push(e).drop_first() =~= a.drop_first().push(e));
        lemma_leaders_under_push(a.drop_first(), e, key);
    }
}

impl LeaderBoard {
    /// No category name occurs twice.
    pub open spec fn wf(self) -> bool {
        distinct_categories(self.entries@)
    }

    pub fn new() -> (b: LeaderBoard)
        ensures
            b.entries@.len() == 0,
            b.wf(),
    {
        LeaderBoard { entries: Vec::new() }
    }

    /// Lists `leaders` under `category`, replacing what was listed there, as
    /// inserting into a map keyed by category does: reading `category` then
    /// gives `leaders`, and every other category reads as before.
    pub fn insert(&mut self, category: String, leaders: Vec<StatLeader>)
        requires
            old(self).wf(),
        ensures
            final(self).wf(),
            leaders_under(final(self).entries@, category@) == leaders@,
            forall|key: Seq<char>|
                key != category@ ==> #[trigger] leaders_under(final(self).entries@, key)
                    == leaders_under(old(self).entries@, key),
    {
        let n = self.entries.len();
        let mut i: usize = 0;
        while i < n
            invariant
                n == self.entries@.len(),
                i <= n,
                self.entries@ == old(self).entries@,
                distinct_categories(self.entries@),
                forall|j: int| 0 <= j < i ==> #[trigger] self.entries@[j].category@ != category@,
            decreases n - i,
        {
            if self.entries[i].category == category {
                let ghost before = self.entries@;
                self.entries[i].leaders = leaders;
                proof {
                    let after = self.entries@;
                    assert(after.len() == before.len());
                    assert forall|j: int| 0 <= j < after.len() implies #[trigger] after[j].category@
                        == before[j].category@ by {
                        if j != i {
                            assert(after[j] == before[j]);
                        }
                    }
                    assert forall|k: Seq<char>| k != category@ implies #[trigger] leaders_under(
                        after,
                        k,
                    ) == leaders_under(before, k) by {
                        assert forall|j: int|
                            0 <= j < before.len() && #[trigger] before[j].category@ == k implies before[j].leaders@
                            == after[j].leaders@ by {
                            if j != i {
                                assert(after[j] == before[j]);
                            }
                        }
                        lemma_leaders_under_agree(before, after, k);
                    }
                    assert forall|j: int| 0 <= j < i implies #[trigger] after[j].category@
                        != category@ by {
                        assert(after[j] == before[j]);
                    }
                    lemma_leaders_under_first(after, category@, i as int);
                    assert(distinct_categories(after)) by {
                        assert forall|a: int, b: int| 0 <= a < b < after.len() implies #[trigger] after[a].category@
                            != #[trigger] after[b].category@ by {
                            assert(after[a].category@ == before[a].category@);
                            assert(after[b].category@ == before[b].category@);
                        }
                    }
                }
                return;
            }
            i = i + 1;
        }
        let ghost before = self.entries@;
        let entry = LeaderEntry { category, leaders };
        self.entries.push(entry);
        proof {
            let after = self.entries@;
            assert(after =~= before.push(entry));
            assert forall|k: Seq<char>| k != entry.category@ implies #[trigger] leaders_under(after, k)
                == leaders_under(before, k) by {
                lemma_leaders_under_push(before, entry, k);
            }
            assert forall|j: int| 0 <= j < n implies #[trigger] after[j].category@ != entry.category@ by {
                assert(after[j] == before[j]);
            }
            lemma_leaders_under_first(after, entry.category@, n as int);
            assert(distinct_categories(after)) by {
                assert forall|a: int, b: int| 0 <= a < b < after.len() implies #[trigger] after[a].category@
                    != #[trigger] after[b].category@ by {
                    if b < n {
                        assert(after[a] == before[a] && after[b] == before[b]);
                    } else {
                        assert(after[a] == before[a]);
                    }
                }
            }
        }
    }

    /// The leaders listed under `key`.
    pub fn get(&self, key: &str) -> (r: &[StatLeader])
        ensures
            r@ == leaders_under(self.entries@, key@),
    {
        let n = self.entries.len();
        let mut i: usize = 0;
        assert(self.entries@.subrange(0, n as int) =~= self.entries@);
        while i < n
            invariant
                n == self.entries@.len(),
                i <= n,
                leaders_under(self.entries@, key@) == leaders_under(
                    self.entries@.subrange(i as int, n as int),
                    key@,
                ),
            decreases n - i,
        {
            let ghost rest = self.entries@.subrange(i as int, n as int);
            assert(rest[0] == self.entries@[i as int]);
            if crate::text::text_is(self.entries[i].category.as_str(), key) {
                return self.entries[i].leaders.as_slice();
            }
            assert(rest.drop_first() =~= self.entries@.subrange(i + 1, n as int));
            i = i + 1;
        }
        assert(self.entries@.subrange(n as int, n as int).len() == 0);
        &[]
    }
}

} // verus!
