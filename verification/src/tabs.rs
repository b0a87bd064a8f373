//! The dashboard's tabs and the two filters that cycle within a tab.

use vstd::prelude::*;

use vstd::arithmetic::div_mod::{
    lemma_add_mod_noop, lemma_mod_add_multiples_vanish, lemma_mod_bound,
    lemma_mod_sub_multiples_vanish, lemma_small_mod, lemma_sub_mod_noop_right,
};

verus! {

#[derive(Debug, Clone, Copy, PartialEq, Eq, Structural)]
pub enum Tab {
    Scores,
    Standings,
    Schedule,
    Leaders,
}

/// Position of a tab in the tab bar.
pub open spec fn tab_index(t: Tab) -> int {
    match t {
        Tab::Scores => 0,
        Tab::Standings => 1,
        Tab::Schedule => 2,
        Tab::Leaders => 3,
    }
}

/// The tab at a position; positions past the end give the scores tab.
pub open spec fn tab_at(i: int) -> Tab {
    if i == 1 {
        Tab::Standings
    } else if i == 2 {
        Tab::Schedule
    } else if i == 3 {
        Tab::Leaders
    } else {
        Tab::Scores
    }
}

pub open spec fn tab_title(t: Tab) -> Seq<char> {
    match t {
        Tab::Scores => "[1] Scores"@,
        Tab::Standings => "[2] Standings"@,
        Tab::Schedule => "[3] Schedule"@,
        Tab::Leaders => "[4] Leaders"@,
    }
}

impl Tab {
    pub const ALL: [Tab; 4] = [Tab::Scores, Tab::Standings, Tab::Schedule, Tab::Leaders];

    /// The tab at position `i`, or the scores tab when `i` is out of range.
    pub fn from_index(i: usize) -> (t: Tab)
        ensures
            t == tab_at(i as int),
    {
        if i == 1 {
            Tab::Standings
        } else if i == 2 {
            Tab::Schedule
        } else if i == 3 {
            Tab::Leaders
        } else {
            Tab::Scores
        }
    }

    pub fn index(self) -> (i: usize)
        ensures
            i == tab_index(self),
    {
        match self {
            Tab::Scores => 0,
            Tab::Standings => 1,
            Tab::Schedule => 2,
            Tab::Leaders => 3,
        }
    }

    pub fn title(self) -> (s: &'static str)
        ensures
            s@ == tab_title(self),
    {
        match self {
            Tab::Scores => "[1] Scores",
            Tab::Standings => "[2] Standings",
            Tab::Schedule => "[3] Schedule",
            Tab::Leaders => "[4] Leaders",
        }
    }
}

/// Position and tab bar agree: a tab's position leads back to it, and every
/// position in range is the position of the tab found there.
pub proof fn lemma_tab_index_round_trip(t: Tab, i: int)
    ensures
        tab_at(tab_index(t)) == t,
        0 <= i < 4 ==> tab_index(tab_at(i)) == i,
        0 <= tab_index(t) < 4,
{
}

/// The element `step` places from position `current`, wrapping around the
/// ends of `all` in either direction.
pub open spec fn cycled_index(len: int, current: int, step: int) -> int {
    (current + step) % len
}

/// Where a cycle starts from: the position given, or the first element
/// when the position is not one of `all` (a value missing from the list
/// counts as its first).
pub open spec fn start_position(len: int, current: int) -> int {
    if current < len {
        current
    } else {
        0
    }
}

/// The element `step` places away from the one at position `current`,
/// wrapping around at both ends; a position past the end counts as the
/// first element.
pub fn cycle<T: Copy>(all: &[T], current: usize, step: isize) -> (r: T)
    requires
        all@.len() > 0,
    ensures
        r == all@[cycled_index(
            all@.len() as int,
            start_position(all@.len() as int, current as int),
            step as int,
        )],
{
    let len = all.len();
    let current: usize = if current < len {
        current
    } else {
        0
    };
    let idx: usize = if step >= 0 {
        let ahead = (step as usize) % len;
        if current >= len - ahead {
            current - (len - ahead)
        } else {
            current + ahead
        }
    } else {
        let back: usize = if step == isize::MIN {
            ((isize::MAX as usize) + 1) % len
        } else {
            ((-step) as usize) % len
        };
        if current >= back {
            current - back
        } else {
            current + (len - back)
        }
    };
    proof {
        let n = len as int;
        let c = current as int;
        let st = step as int;
        lemma_small_mod(current as nat, len as nat);
        if st >= 0 {
            let a = st % n;
            lemma_add_mod_noop(c, st, n);
            lemma_mod_bound(st, n);
            if c >= n - a {
                lemma_mod_sub_multiples_vanish(c + a, n);
                lemma_small_mod((c + a - n) as nat, len as nat);
            } else {
                lemma_small_mod((c + a) as nat, len as nat);
            }
        } else {
            let b = (-st) % n;
            lemma_mod_bound(-st, n);
            lemma_sub_mod_noop_right(c, -st, n);
            assert(c + st == c - (-st));
            if c >= b {
                lemma_small_mod((c - b) as nat, len as nat);
            } else {
                lemma_mod_add_multiples_vanish(c - b, n);
                lemma_small_mod((c - b + n) as nat, len as nat);
            }
        }
    }
    all[idx]
}

#[derive(Debug, Clone, Copy, PartialEq, Eq, Structural)]
pub enum StandingsFilter {
    Conference,
    Division,
    League,
}

pub open spec fn filter_index(f: StandingsFilter) -> int {
    match f {
        StandingsFilter::Conference => 0,
        StandingsFilter::Division => 1,
        StandingsFilter::League => 2,
    }
}

pub open spec fn filter_at(i: int) -> StandingsFilter {
    if i == 0 {
        StandingsFilter::Conference
    } else if i == 1 {
        StandingsFilter::Division
    } else {
        StandingsFilter::League
    }
}

/// The filter `step` places after `f` in the cycle Conference, Division,
/// League.
pub open spec fn filter_step(f: StandingsFilter, step: int) -> StandingsFilter {
    filter_at(cycled_index(3, filter_index(f), step))
}

pub open spec fn filter_name(f: StandingsFilter) -> Seq<char> {
    match f {
        StandingsFilter::Conference => "Conference"@,
        StandingsFilter::Division => "Division"@,
        StandingsFilter::League => "League"@,
    }
}

impl StandingsFilter {
    pub const ALL: [StandingsFilter; 3] = [
        StandingsFilter::Conference,
        StandingsFilter::Division,
        StandingsFilter::League,
    ];

    fn position(self) -> (i: usize)
        ensures
            i == filter_index(self),
    {
        match self {
            StandingsFilter::Conference => 0,
            StandingsFilter::Division => 1,
            StandingsFilter::League => 2,
        }
    }

    pub fn next(self) -> (r: Self)
        ensures
            r == filter_step(self, 1),
    {
        let all = Self::ALL;
        assert(all@ == seq![StandingsFilter::Conference, StandingsFilter::Division, StandingsFilter::League]);
        cycle(&all, self.position(), 1)
    }

    pub fn prev(self) -> (r: Self)
        ensures
            r == filter_step(self, -1),
    {
        let all = Self::ALL;
        assert(all@ == seq![StandingsFilter::Conference, StandingsFilter::Division, StandingsFilter::League]);
        cycle(&all, self.position(), -1)
    }

    pub fn as_str(self) -> (s: &'static str)
        ensures
            s@ == filter_name(self),
    {
        match self {
            StandingsFilter::Conference => "Conference",
            StandingsFilter::Division => "Division",
            StandingsFilter::League => "League",
        }
    }
}

/// The categories the stats-leaders endpoint actually serves. Anything else
/// comes back as HTTP 400, so this list is the source of truth for both the
/// tab cycle and the request.
#[derive(Debug, Clone, Copy, PartialEq, Eq, Structural)]
pub enum LeaderCategory {
    Points,
    Goals,
    Assists,
    PlusMinus,
    PenaltyMins,
    PowerPlayGoals,
    ShorthandedGoals,
    Faceoffs,
    TimeOnIce,
}

pub open spec fn category_index(c: LeaderCategory) -> int {
    match c {
        LeaderCategory::Points => 0,
        LeaderCategory::Goals => 1,
        LeaderCategory::Assists => 2,
        LeaderCategory::PlusMinus => 3,
        LeaderCategory::PenaltyMins => 4,
        LeaderCategory::PowerPlayGoals => 5,
        LeaderCategory::ShorthandedGoals => 6,
        LeaderCategory::Faceoffs => 7,
        LeaderCategory::TimeOnIce => 8,
    }
}

pub open spec fn category_at(i: int) -> LeaderCategory {
    if i == 0 {
        LeaderCategory::Points
    } else if i == 1 {
        LeaderCategory::Goals
    } else if i == 2 {
        LeaderCategory::Assists
    } else if i == 3 {
        LeaderCategory::PlusMinus
    } else if i == 4 {
        LeaderCategory::PenaltyMins
    } else if i == 5 {
        LeaderCategory::PowerPlayGoals
    } else if i == 6 {
        LeaderCategory::ShorthandedGoals
    } else if i == 7 {
        LeaderCategory::Faceoffs
    } else {
        LeaderCategory::TimeOnIce
    }
}

/// The category `step` places after `c` in the order of `LeaderCategory::ALL`.
pub open spec fn category_step(c: LeaderCategory, step: int) -> LeaderCategory {
    category_at(cycled_index(9, category_index(c), step))
}

pub open spec fn category_name(c: LeaderCategory) -> Seq<char> {
    match c {
        LeaderCategory::Points => "Points"@,
        LeaderCategory::Goals => "Goals"@,
        LeaderCategory::Assists => "Assists"@,
        LeaderCategory::PlusMinus => "+/-"@,
        LeaderCategory::PenaltyMins => "PIM"@,
        LeaderCategory::PowerPlayGoals => "PP Goals"@,
        LeaderCategory::ShorthandedGoals => "SH Goals"@,
        LeaderCategory::Faceoffs => "Faceoff %"@,
        LeaderCategory::TimeOnIce => "TOI/GP"@,
    }
}

/// The key under which the leaders endpoint returns a category.
pub open spec fn category_key(c: LeaderCategory) -> Seq<char> {
    match c {
        LeaderCategory::Points => "points"@,
        LeaderCategory::Goals => "goals"@,
        LeaderCategory::Assists => "assists"@,
        LeaderCategory::PlusMinus => "plusMinus"@,
        LeaderCategory::PenaltyMins => "penaltyMins"@,
        LeaderCategory::PowerPlayGoals => "goalsPp"@,
        LeaderCategory::ShorthandedGoals => "goalsSh"@,
        LeaderCategory::Faceoffs => "faceoffLeaders"@,
        LeaderCategory::TimeOnIce => "toi"@,
    }
}

impl LeaderCategory {
    pub const ALL: [LeaderCategory; 9] = [
        LeaderCategory::Points,
        LeaderCategory::Goals,
        LeaderCategory::Assists,
        LeaderCategory::PlusMinus,
        LeaderCategory::PenaltyMins,
        LeaderCategory::PowerPlayGoals,
        LeaderCategory::ShorthandedGoals,
        LeaderCategory::Faceoffs,
        LeaderCategory::TimeOnIce,
    ];

    fn position(self) -> (i: usize)
        ensures
            i == category_index(self),
    {
        match self {
            LeaderCategory::Points => 0,
            LeaderCategory::Goals => 1,
            LeaderCategory::Assists => 2,
            LeaderCategory::PlusMinus => 3,
            LeaderCategory::PenaltyMins => 4,
            LeaderCategory::PowerPlayGoals => 5,
            LeaderCategory::ShorthandedGoals => 6,
            LeaderCategory::Faceoffs => 7,
            LeaderCategory::TimeOnIce => 8,
        }
    }

    proof fn lemma_all(all: [LeaderCategory; 9])
        requires
            all == Self::ALL,
        ensures
            forall|i: int| 0 <= i < 9 ==> #[trigger] all@[i] == category_at(i),
            all@.len() == 9,
    {
    }

    pub fn next(self) -> (r: Self)
        ensures
            r == category_step(self, 1),
    {
        let all = Self::ALL;
        proof {
            Self::lemma_all(all);
        }
        cycle(&all, self.position(), 1)
    }

    pub fn prev(self) -> (r: Self)
        ensures
            r == category_step(self, -1),
    {
        let all = Self::ALL;
        proof {
            Self::lemma_all(all);
        }
        cycle(&all, self.position(), -1)
    }

    pub fn as_str(self) -> (s: &'static str)
        ensures
            s@ == category_name(self),
    {
        match self {
            LeaderCategory::Points => "Points",
            LeaderCategory::Goals => "Goals",
            LeaderCategory::Assists => "Assists",
            LeaderCategory::PlusMinus => "+/-",
            LeaderCategory::PenaltyMins => "PIM",
            LeaderCategory::PowerPlayGoals => "PP Goals",
            LeaderCategory::ShorthandedGoals => "SH Goals",
            LeaderCategory::Faceoffs => "Faceoff %",
            LeaderCategory::TimeOnIce => "TOI/GP",
        }
    }

    pub fn api_key(self) -> (s: &'static str)
        ensures
            s@ == category_key(self),
    {
        match self {
            LeaderCategory::Points => "points",
            LeaderCategory::Goals => "goals",
            LeaderCategory::Assists => "assists",
            LeaderCategory::PlusMinus => "plusMinus",
            LeaderCategory::PenaltyMins => "penaltyMins",
            LeaderCategory::PowerPlayGoals => "goalsPp",
            LeaderCategory::ShorthandedGoals => "goalsSh",
            LeaderCategory::Faceoffs => "faceoffLeaders",
            LeaderCategory::TimeOnIce => "toi",
        }
    }
}

/// Stepping a standings filter forward then back, or back then forward,
/// returns to where it started, and three steps forward go all the way
/// round.
pub proof fn lemma_filter_cycle(f: StandingsFilter)
    ensures
        filter_step(filter_step(f, 1), -1) == f,
        filter_step(filter_step(f, -1), 1) == f,
        filter_step(filter_step(filter_step(f, 1), 1), 1) == f,
{
}

/// Stepping a leader category forward then back, or back then forward,
/// returns to where it started, and as many steps forward as there are
/// categories go all the way round.
pub proof fn lemma_category_cycle(c: LeaderCategory)
    ensures
        category_step(category_step(c, 1), -1) == c,
        category_step(category_step(c, -1), 1) == c,
        category_steps(c, 9) == c,
{
    lemma_category_steps(c, 9);
    assert((category_index(c) + 9) % 9 == category_index(c));
}

proof fn lemma_category_at_index(i: int)
    requires
        0 <= i < 9,
    ensures
        category_index(category_at(i)) == i,
{
}

proof fn lemma_category_steps(c: LeaderCategory, n: nat)
    ensures
        category_steps(c, n) == category_at((category_index(c) + n) % 9),
    decreases n,
{
    if n > 0 {
        lemma_category_steps(c, (n - 1) as nat);
        let j = (category_index(c) + n - 1) % 9;
        lemma_mod_bound(category_index(c) + n - 1, 9);
        lemma_category_at_index(j);
        lemma_add_mod_noop(category_index(c) + n - 1, 1, 9);
        lemma_small_mod(1, 9);
    }
}

/// `n` forward steps from `c`.
pub open spec fn category_steps(c: LeaderCategory, n: nat) -> LeaderCategory
    decreases n,
{
    if n == 0 {
        c
    } else {
        category_step(category_steps(c, (n - 1) as nat), 1)
    }
}

/// No two categories are requested under the same key.
pub proof fn lemma_category_keys_distinct(a: LeaderCategory, b: LeaderCategory)
    ensures
        category_key(a) == category_key(b) ==> a == b,
{
    reveal_strlit("points");
    reveal_strlit("goals");
    reveal_strlit("assists");
    reveal_strlit("plusMinus");
    reveal_strlit("penaltyMins");
    reveal_strlit("goalsPp");
    reveal_strlit("goalsSh");
    reveal_strlit("faceoffLeaders");
    reveal_strlit("toi");
    if category_key(a) == category_key(b) && a != b {
        let ka = category_key(a);
        let kb = category_key(b);
        assert(ka.len() == kb.len());
        assert(ka[0] == kb[0]);
        assert(ka[ka.len() - 1] == kb[kb.len() - 1]);
        assert(ka[1] == kb[1]);
    }
}

} // verus!
