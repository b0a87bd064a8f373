//! What the screen shows, short of drawing it: scrolling, labels, and the
//! text of rows and summaries. The terminal widgets and colours are the
//! driver's; each tone here names one of its colours.

use vstd::prelude::*;

use crate::app::{week_games, App};
use crate::calendar::iso_date;
use crate::models::{
    opt_is, opt_text_is, period_label, Assist, BoxscoreTeam, Game, Goal, NameField,
    GameDay, ScheduleTeam, ScoringPeriod, Standing,
};
use crate::tabs::StandingsFilter;
use crate::text::{
    decimal, decimal_text, pad_left, pad_right, padded_left, padded_right, plus_signed_decimal,
    plus_signed_text, text_is, to_uppercase_text, trim_end_text, trim_start_text, trim_text,
    trimmed, trimmed_end, trimmed_start, uppercase, zero_padded, zero_padded_text,
};

verus! {

/// First visible row for a list of `total` rows in a viewport `height` rows
/// tall, so that row `selected` is on screen: the selection rides the bottom
/// edge once the list is longer than the viewport.
pub open spec fn scroll_offset_of(selected: int, height: int, total: int) -> int {
    if height == 0 || total <= height {
        0
    } else {
        let lifted = if selected > height - 1 { selected - (height - 1) } else { 0 };
        if lifted < total - height { lifted } else { total - height }
    }
}

/// Offset that keeps `selected` on screen without storing scroll position
/// between frames.
pub fn scroll_offset(selected: usize, height: usize, total: usize) -> (offset: usize)
    ensures
        offset == scroll_offset_of(selected as int, height as int, total as int),
{
    if height == 0 || total <= height {
        return 0;
    }
    let lifted = selected.saturating_sub(height - 1);
    if lifted < total - height {
        lifted
    } else {
        total - height
    }
}

/// Short lists never scroll; in a long list the selected row is on screen
/// and the viewport never runs past the last row.
pub proof fn lemma_scroll_offset_shows_selection(selected: int, height: int, total: int)
    requires
        0 <= selected < total,
        0 <= height,
    ensures
        total <= height ==> scroll_offset_of(selected, height, total) == 0,
        height > 0 ==> scroll_offset_of(selected, height, total) <= selected < scroll_offset_of(
            selected,
            height,
            total,
        ) + height,
        height > 0 && total > height ==> scroll_offset_of(selected, height, total) + height
            <= total,
{
}

/// The value of an optional `{ "default": ... }` field, or nothing.
pub open spec fn name_text(name: Option<NameField>) -> Seq<char> {
    match name {
        Some(n) => n.default@,
        None => Seq::empty(),
    }
}

/// The first letter of a name and a dot, or nothing for a missing or empty
/// name.
pub open spec fn initial_of(name: Option<NameField>) -> Seq<char> {
    match name {
        Some(n) => if n.default@.len() > 0 {
            seq![n.default@[0], '.']
        } else {
            Seq::empty()
        },
        None => Seq::empty(),
    }
}

/// The value of an optional `{ "default": ... }` field, or "".
pub fn text(name: &Option<NameField>) -> (s: &str)
    ensures
        s@ == name_text(*name),
{
    proof {
        reveal_strlit("");
    }
    match name {
        Some(n) => n.default.as_str(),
        None => "",
    }
}

/// "C." for "Connor"; "" when the name is missing or empty.
pub fn initial(name: &Option<NameField>) -> (s: String)
    ensures
        s@ == initial_of(*name),
{
    proof {
        reveal_strlit(".");
    }
    match name {
        Some(n) => {
            let full = n.default.as_str();
            if full.unicode_len() > 0 {
                let first = String::from_str(full.substring_char(0, 1));
                let s = first.concat(".");
                assert(s@ =~= seq![n.default@[0], '.']);
                s
            } else {
                String::new()
            }
        },
        None => String::new(),
    }
}

/// How a game's state is coloured.
#[derive(Debug, Clone, Copy, PartialEq, Eq, Structural)]
pub enum StateTone {
    Live,
    Final,
    Upcoming,
    Other,
}

pub open spec fn is_live_state(s: Seq<char>) -> bool {
    s == "LIVE"@ || s == "CRIT"@
}

pub open spec fn is_final_state(s: Seq<char>) -> bool {
    s == "FINAL"@ || s == "OFF"@
}

pub open spec fn is_upcoming_state(s: Seq<char>) -> bool {
    s == "FUT"@ || s == "PRE"@
}

/// The period of a live game: its descriptor's label, else its bare
/// period number (0 when unknown).
pub open spec fn live_period(g: Game) -> Seq<char> {
    match g.period_descriptor {
        Some(pd) => period_label(pd.number, pd.period_type),
        None => decimal(
            match g.period {
                Some(p) => p as nat,
                None => 0,
            },
        ),
    }
}

/// The clock of a live game, or nothing.
pub open spec fn live_clock(g: Game) -> Seq<char> {
    match g.clock {
        Some(c) => match c.time_remaining {
            Some(t) => t@,
            None => Seq::empty(),
        },
        None => Seq::empty(),
    }
}

/// "FINAL", marked "/OT" or "/SO" when the game went past regulation.
pub open spec fn final_label(g: Game) -> Seq<char> {
    let last = match g.game_outcome {
        Some(o) => o.last_period_type,
        None => None,
    };
    if opt_text_is(last, "OT"@) {
        "FINAL/OT"@
    } else if opt_text_is(last, "SO"@) {
        "FINAL/SO"@
    } else {
        "FINAL"@
    }
}

/// The state column of a game on the scores tab, `start` standing for its
/// local start time. CRIT is a late, close game; the API treats it as live.
pub open spec fn state_label(g: Game, start: Seq<char>) -> (Seq<char>, StateTone) {
    let s = g.game_state@;
    if is_live_state(s) {
        (trimmed_end("LIVE "@ + live_period(g) + " "@ + live_clock(g)), StateTone::Live)
    } else if is_final_state(s) {
        (final_label(g), StateTone::Final)
    } else if is_upcoming_state(s) {
        (start, StateTone::Upcoming)
    } else {
        (s, StateTone::Other)
    }
}

/// The state column of a game, given its local start time.
pub fn game_state_label_with(game: &Game, start: &str) -> (r: (String, StateTone))
    ensures
        (r.0@, r.1) == state_label(*game, start@),
{
    let s = game.game_state.as_str();
    if text_is(s, "LIVE") || text_is(s, "CRIT") {
        let period = match &game.period_descriptor {
            Some(pd) => pd.label(),
            None => decimal_text(
                match game.period {
                    Some(p) => p as u64,
                    None => 0,
                },
            ),
        };
        let clock: &str = match &game.clock {
            Some(c) => match &c.time_remaining {
                Some(t) => t.as_str(),
                None => "",
            },
            None => "",
        };
        proof {
            reveal_strlit("");
        }
        let line = String::from_str("LIVE ").concat(period.as_str()).concat(" ").concat(clock);
        (trim_end_text(line.as_str()), StateTone::Live)
    } else if text_is(s, "FINAL") || text_is(s, "OFF") {
        let last: Option<String> = match &game.game_outcome {
            Some(o) => o.last_period_type.clone(),
            None => None,
        };
        let label = if opt_is(&last, "OT") {
            "FINAL/OT"
        } else if opt_is(&last, "SO") {
            "FINAL/SO"
        } else {
            "FINAL"
        };
        (String::from_str(label), StateTone::Final)
    } else if text_is(s, "FUT") || text_is(s, "PRE") {
        (String::from_str(start), StateTone::Upcoming)
    } else {
        (game.game_state.clone(), StateTone::Other)
    }
}

/// A game's state column, an upcoming game's start time shown in the local
/// time zone.
pub fn game_state_label(game: &Game) -> (r: (String, StateTone))
    ensures
        !is_upcoming_state(game.game_state@) ==> (r.0@, r.1) == state_label(*game, Seq::empty()),
        is_upcoming_state(game.game_state@) ==> r.1 == StateTone::Upcoming,
        is_upcoming_state(game.game_state@) && game.start_time_utc is None ==> r.0@ == "TBD"@,
        is_upcoming_state(game.game_state@) && game.start_time_utc is Some ==> (r.0@ == "TBD"@
            <==> !rfc3339_valid(game.start_time_utc->0@)),
        is_upcoming_state(game.game_state@) && game.start_time_utc is Some && rfc3339_valid(
            game.start_time_utc->0@,
        ) ==> clock_face(r.0@),
{
    proof {
        reveal_strlit("LIVE");
        reveal_strlit("CRIT");
        reveal_strlit("FINAL");
        reveal_strlit("OFF");
        reveal_strlit("FUT");
        reveal_strlit("PRE");
        assert("FUT"@.len() == 3 && "PRE"@.len() == 3 && "LIVE"@.len() == 4 && "CRIT"@.len() == 4);
        assert("FINAL"@.len() == 5 && "OFF"@.len() == 3);
        assert("FUT"@[0] == 'F' && "PRE"@[0] == 'P' && "OFF"@[0] == 'O');
    }
    let upcoming = text_is(game.game_state.as_str(), "FUT") || text_is(
        game.game_state.as_str(),
        "PRE",
    );
    let start = if upcoming {
        start_time(&game.start_time_utc)
    } else {
        String::new()
    };
    game_state_label_with(game, start.as_str())
}

/// Whether chrono's `DateTime::parse_from_rfc3339` accepts the text.
pub uninterp spec fn rfc3339_valid(s: Seq<char>) -> bool;

/// A time of day written as "H:MM AM" or "H:MM PM": the hour on a 12-hour
/// clock without padding, the minute in two digits.
pub open spec fn clock_text(hour: nat, minute: nat, pm: bool) -> Seq<char> {
    decimal(hour) + seq![':'] + zero_padded(minute, 2) + seq![' '] + (if pm {
        seq!['P', 'M']
    } else {
        seq!['A', 'M']
    })
}

/// Some time of day on a 12-hour clock, written as `clock_text` writes it.
pub open spec fn clock_face(s: Seq<char>) -> bool {
    exists|hour: nat, minute: nat, pm: bool|
        1 <= hour <= 12 && minute < 60 && s == #[trigger] clock_text(hour, minute, pm)
}

/// A 12-hour clock time starts with the hour's first digit.
proof fn lemma_clock_text_starts_with_digit(hour: nat, minute: nat, pm: bool)
    requires
        1 <= hour <= 12,
    ensures
        clock_text(hour, minute, pm).len() > 0,
        '0' <= clock_text(hour, minute, pm)[0] <= '9',
{
    reveal_with_fuel(decimal, 2);
    assert(decimal(hour).len() > 0);
    assert('0' <= decimal(hour)[0] <= '9');
    assert(clock_text(hour, minute, pm)[0] == decimal(hour)[0]);
}

/// Reformats an RFC 3339 UTC timestamp as the local time of day, e.g.
/// "7:00 PM", with chrono's `DateTime::parse_from_rfc3339`,
/// `with_timezone(&Local)` and `format("%-I:%M %p")`; `None` when it does not
/// parse.
///
/// Claims that the text is present exactly when chrono parses the timestamp
/// (named by `rfc3339_valid`), and that it has the shape chrono's format
/// gives every time of day: `%-I` writes the hour 1 to 12 unpadded, `%M` the
/// minute in two digits, `%p` "AM" or "PM" (`clock_face`). Which time it shows
/// depends on the machine's time zone, so the hour and minute are not claimed.
#[verifier::external_body]
fn local_time_of_day(utc: &str) -> (r: Option<String>)
    ensures
        r is Some <==> rfc3339_valid(utc@),
        r is Some ==> clock_face(r->0@),
{
    match chrono::DateTime::parse_from_rfc3339(utc) {
        Ok(d) => Some(d.with_timezone(&chrono::Local).format("%-I:%M %p").to_string()),
        Err(_) => None,
    }
}

/// A start time in the viewer's local time zone, or "TBD" when it is not
/// known or does not parse.
pub fn start_time(utc: &Option<String>) -> (s: String)
    ensures
        utc is None ==> s@ == "TBD"@,
        utc is Some ==> (s@ == "TBD"@ <==> !rfc3339_valid(utc->0@)),
        utc is Some && rfc3339_valid(utc->0@) ==> clock_face(s@),
{
    proof {
        reveal_strlit("TBD");
    }
    match utc {
        Some(t) => match local_time_of_day(t.as_str()) {
            Some(local) => {
                proof {
                    let (hour, minute, pm) = choose|hour: nat, minute: nat, pm: bool|
                        1 <= hour <= 12 && minute < 60 && local@ == #[trigger] clock_text(
                            hour,
                            minute,
                            pm,
                        );
                    lemma_clock_text_starts_with_digit(hour, minute, pm);
                    assert(local@[0] != "TBD"@[0]);
                }
                local
            },
            None => String::from_str("TBD"),
        },
        None => String::from_str("TBD"),
    }
}

/// Period column a goal is tallied under: first, second, third, or any
/// overtime (a number out of range is clamped into 1..=4).
pub open spec fn goal_slot(number: u32) -> int {
    if number <= 1 {
        0
    } else if number >= 4 {
        3
    } else {
        number - 1
    }
}

/// Goals among `goals` credited to `team` (`by_team`), or to anyone else.
pub open spec fn goals_of(goals: Seq<Goal>, team: Seq<char>, by_team: bool) -> nat
    decreases goals.len(),
{
    if goals.len() == 0 {
        0
    } else {
        goals_of(goals.drop_last(), team, by_team) + if (goals.last().team_abbrev.default@ == team)
            == by_team {
            1nat
        } else {
            0nat
        }
    }
}

/// Goals in period column `slot` credited to `team` (`by_team`), or to the
/// other side.
pub open spec fn slot_goals(periods: Seq<ScoringPeriod>, team: Seq<char>, by_team: bool, slot: int) -> nat
    decreases periods.len(),
{
    if periods.len() == 0 {
        0
    } else {
        slot_goals(periods.drop_last(), team, by_team, slot) + if goal_slot(
            periods.last().period_descriptor.number,
        ) == slot {
            goals_of(periods.last().goals@, team, by_team)
        } else {
            0
        }
    }
}

/// Every goal of the summary.
pub open spec fn total_goals(periods: Seq<ScoringPeriod>) -> nat
    decreases periods.len(),
{
    if periods.len() == 0 {
        0
    } else {
        total_goals(periods.drop_last()) + periods.last().goals@.len()
    }
}

proof fn lemma_goals_of_bound(goals: Seq<Goal>, team: Seq<char>, by_team: bool)
    ensures
        goals_of(goals, team, by_team) <= goals.len(),
    decreases goals.len(),
{
    if goals.len() > 0 {
        lemma_goals_of_bound(goals.drop_last(), team, by_team);
    }
}

proof fn lemma_slot_goals_bound(periods: Seq<ScoringPeriod>, team: Seq<char>, by_team: bool, slot: int)
    ensures
        slot_goals(periods, team, by_team, slot) <= total_goals(periods),
    decreases periods.len(),
{
    if periods.len() > 0 {
        lemma_slot_goals_bound(periods.drop_last(), team, by_team, slot);
        lemma_goals_of_bound(periods.last().goals@, team, by_team);
    }
}

/// Each period's goals land in that period's column: a goal of the first,
/// second or third period under columns 0, 1 and 2, of any overtime (period
/// 4 on) under column 3, and a period numbered 0 under the first column. The
/// other columns are untouched; the goals counted are those credited to
/// `team` (`by_team`), or else those of the other side.
pub proof fn lemma_goals_land_in_their_period(
    periods: Seq<ScoringPeriod>,
    p: ScoringPeriod,
    team: Seq<char>,
    by_team: bool,
    slot: int,
)
    requires
        0 <= slot < 4,
    ensures
        ({
            let n = p.period_descriptor.number as int;
            let here = (n <= 1 && slot == 0) || (2 <= n <= 3 && slot == n - 1) || (4 <= n && slot
                == 3);
            slot_goals(periods.push(p), team, by_team, slot) == slot_goals(
                periods,
                team,
                by_team,
                slot,
            ) + if here {
                goals_of(p.goals@, team, by_team)
            } else {
                0
            }
        }),
{
    assert(periods.push(p).drop_last() =~= periods);
}

/// A goal is counted for `team` exactly when it is credited to `team`, and
/// for the other side otherwise, so the two counts share out every goal.
pub proof fn lemma_goals_counted_by_credit(goals: Seq<Goal>, g: Goal, team: Seq<char>)
    ensures
        goals_of(goals.push(g), team, true) == goals_of(goals, team, true) + if g.team_abbrev.default@
            == team {
            1int
        } else {
            0int
        },
        goals_of(goals.push(g), team, false) == goals_of(goals, team, false) + if g.team_abbrev.default@
            == team {
            0int
        } else {
            1int
        },
        goals_of(goals, team, true) + goals_of(goals, team, false) == goals.len(),
    decreases goals.len(),
{
    assert(goals.push(g).drop_last() =~= goals);
    if goals.len() > 0 {
        lemma_goals_counted_by_credit(goals.drop_last(), goals.last(), team);
        assert(goals.drop_last().push(goals.last()) =~= goals);
    }
}

/// Goals per period column for the away side (`.0`) and the home side
/// (`.1`): a goal counts for the away side when credited to `away`, else
/// for the home side.
pub fn period_goal_counts(periods: &Vec<ScoringPeriod>, away: &String) -> (r: ([u32; 4], [u32; 4]))
    requires
        total_goals(periods@) <= u32::MAX,
    ensures
        forall|slot: int|
            0 <= slot < 4 ==> #[trigger] r.0@[slot] == slot_goals(periods@, away@, true, slot),
        forall|slot: int|
            0 <= slot < 4 ==> #[trigger] r.1@[slot] == slot_goals(periods@, away@, false, slot),
        r.0@[0] + r.0@[1] + r.0@[2] + r.0@[3] == side_goals(periods@, away@, true),
        r.1@[0] + r.1@[1] + r.1@[2] + r.1@[3] == side_goals(periods@, away@, false),
        side_goals(periods@, away@, true) <= u32::MAX,
        side_goals(periods@, away@, false) <= u32::MAX,
{
    let mut away_goals: [u32; 4] = [0, 0, 0, 0];
    let mut home_goals: [u32; 4] = [0, 0, 0, 0];
    let n = periods.len();
    let mut p: usize = 0;
    assert(periods@.take(0) =~= Seq::<ScoringPeriod>::empty());
    while p < n
        invariant
            n == periods@.len(),
            p <= n,
            total_goals(periods@) <= u32::MAX,
            away_goals@.len() == 4,
            home_goals@.len() == 4,
            forall|slot: int|
                0 <= slot < 4 ==> #[trigger] away_goals@[slot] == slot_goals(
                    periods@.take(p as int),
                    away@,
                    true,
                    slot,
                ),
            forall|slot: int|
                0 <= slot < 4 ==> #[trigger] home_goals@[slot] == slot_goals(
                    periods@.take(p as int),
                    away@,
                    false,
                    slot,
                ),
        decreases n - p,
    {
        let period = &periods[p];
        let number = period.period_descriptor.number;
        let idx: usize = if number <= 1 {
            0
        } else if number >= 4 {
            3
        } else {
            (number - 1) as usize
        };
        let ghost prefix = periods@.take(p as int);
        assert(periods@.take(p + 1).drop_last() =~= prefix);
        assert(periods@.take(p + 1).last() == *period);
        let m = period.goals.len();
        let mut g: usize = 0;
        let ghost base_away = away_goals@;
        let ghost base_home = home_goals@;
        assert(period.goals@.take(0) =~= Seq::<Goal>::empty());
        proof {
            lemma_total_goals_prefix(periods@, p as int + 1);
            lemma_slot_goals_bound(prefix, away@, true, idx as int);
            lemma_slot_goals_bound(prefix, away@, false, idx as int);
            assert(away_goals@[idx as int] == slot_goals(prefix, away@, true, idx as int));
            assert(home_goals@[idx as int] == slot_goals(prefix, away@, false, idx as int));
        }
        while g < m
            invariant
                m == period.goals@.len(),
                g <= m,
                0 <= idx < 4,
                total_goals(prefix) + m <= u32::MAX,
                base_away[idx as int] <= total_goals(prefix),
                base_home[idx as int] <= total_goals(prefix),
                away_goals@.len() == 4,
                home_goals@.len() == 4,
                base_away.len() == 4,
                base_home.len() == 4,
                forall|slot: int|
                    0 <= slot < 4 && slot != idx ==> #[trigger] away_goals@[slot] == base_away[slot],
                forall|slot: int|
                    0 <= slot < 4 && slot != idx ==> #[trigger] home_goals@[slot] == base_home[slot],
                away_goals@[idx as int] == base_away[idx as int] + goals_of(
                    period.goals@.take(g as int),
                    away@,
                    true,
                ),
                home_goals@[idx as int] == base_home[idx as int] + goals_of(
                    period.goals@.take(g as int),
                    away@,
                    false,
                ),
            decreases m - g,
        {
            assert(period.goals@.take(g + 1).drop_last() =~= period.goals@.take(g as int));
            proof {
                lemma_goals_of_bound(period.goals@.take(g as int), away@, true);
                lemma_goals_of_bound(period.goals@.take(g as int), away@, false);
            }
            if text_is(period.goals[g].team_abbrev.default.as_str(), away.as_str()) {
                away_goals[idx] = away_goals[idx] + 1;
            } else {
                home_goals[idx] = home_goals[idx] + 1;
            }
            g = g + 1;
        }
        assert(period.goals@.take(m as int) =~= period.goals@);
        proof {
            let next = periods@.take(p + 1);
            assert forall|slot: int| 0 <= slot < 4 implies #[trigger] away_goals@[slot]
                == slot_goals(next, away@, true, slot) by {
                assert(base_away[slot] == slot_goals(prefix, away@, true, slot));
            }
            assert forall|slot: int| 0 <= slot < 4 implies #[trigger] home_goals@[slot]
                == slot_goals(next, away@, false, slot) by {
                assert(base_home[slot] == slot_goals(prefix, away@, false, slot));
            }
        }
        p = p + 1;
    }
    assert(periods@.take(n as int) =~= periods@);
    let ghost all = periods@.take(n as int);
    assert(all == periods@);
    assert forall|slot: int| 0 <= slot < 4 implies #[trigger] away_goals@[slot] == slot_goals(
        periods@,
        away@,
        true,
        slot,
    ) by {
        assert(away_goals@[slot] == slot_goals(all, away@, true, slot));
    }
    assert forall|slot: int| 0 <= slot < 4 implies #[trigger] home_goals@[slot] == slot_goals(
        periods@,
        away@,
        false,
        slot,
    ) by {
        assert(home_goals@[slot] == slot_goals(all, away@, false, slot));
    }
    proof {
        lemma_slots_add_up(periods@, away@, true);
        lemma_slots_add_up(periods@, away@, false);
        assert(away_goals@[0] == slot_goals(periods@, away@, true, 0));
        assert(away_goals@[1] == slot_goals(periods@, away@, true, 1));
        assert(away_goals@[2] == slot_goals(periods@, away@, true, 2));
        assert(away_goals@[3] == slot_goals(periods@, away@, true, 3));
        assert(home_goals@[0] == slot_goals(periods@, away@, false, 0));
        assert(home_goals@[1] == slot_goals(periods@, away@, false, 1));
        assert(home_goals@[2] == slot_goals(periods@, away@, false, 2));
        assert(home_goals@[3] == slot_goals(periods@, away@, false, 3));
    }
    (away_goals, home_goals)
}

proof fn lemma_total_goals_prefix(periods: Seq<ScoringPeriod>, i: int)
    requires
        0 <= i <= periods.len(),
    ensures
        total_goals(periods.take(i)) <= total_goals(periods),
        i > 0 ==> total_goals(periods.take(i - 1)) + periods[i - 1].goals@.len() == total_goals(
            periods.take(i),
        ),
    decreases periods.len() - i,
{
    if i > 0 {
        assert(periods.take(i).drop_last() =~= periods.take(i - 1));
    }
    if i < periods.len() {
        lemma_total_goals_prefix(periods, i + 1);
    } else {
        assert(periods.take(i) =~= periods);
    }
}

/// " (n)" after a name when a season tally is known.
pub open spec fn tally(n: Option<u32>) -> Seq<char> {
    match n {
        Some(v) => " ("@ + decimal(v as nat) + ")"@,
        None => Seq::empty(),
    }
}

fn tally_text(n: Option<u32>) -> (s: String)
    ensures
        s@ == tally(n),
{
    match n {
        Some(v) => String::from_str(" (").concat(decimal_text(v as u64).as_str()).concat(")"),
        None => String::new(),
    }
}

/// "A. Matthews (41)": initial, last name and season tally of a scorer.
pub open spec fn scorer_of(g: Goal) -> Seq<char> {
    initial_of(g.first_name) + " "@ + name_text(g.last_name) + tally(g.goals_to_date)
}

/// "M. Marner (60)": initial, last name and season tally of an assist.
pub open spec fn assister_of(a: Assist) -> Seq<char> {
    initial_of(a.first_name) + " "@ + name_text(a.last_name) + tally(a.assists_to_date)
}

/// The assists of a goal, separated by ", ".
pub open spec fn assists_joined(assists: Seq<Assist>) -> Seq<char>
    decreases assists.len(),
{
    if assists.len() == 0 {
        Seq::empty()
    } else if assists.len() == 1 {
        assister_of(assists[0])
    } else {
        assists_joined(assists.drop_last()) + ", "@ + assister_of(assists.last())
    }
}

/// The bracket closing a goal line: the assists, or "[unassisted]".
pub open spec fn assists_bracket(assists: Seq<Assist>) -> Seq<char> {
    if assists_joined(assists).len() == 0 {
        "  [unassisted]"@
    } else {
        "  ["@ + assists_joined(assists) + "]"@
    }
}

/// " PP", " SH", ...: the upper-cased strength of a goal not scored at even
/// strength ("ev").
pub open spec fn strength_tag(g: Goal) -> Option<Seq<char>> {
    match g.strength {
        Some(s) => if s@ == "ev"@ {
            None
        } else {
            Some(" "@ + uppercase(s@))
        },
        None => None,
    }
}

/// The text of one goal in the boxscore's summary.
#[derive(Debug, Clone, PartialEq)]
pub struct GoalLine {
    pub scorer: String,
    pub strength: Option<String>,
    pub assists: String,
}

/// Scorer, strength and assists of a goal, as the boxscore lists them.
pub fn goal_line(goal: &Goal) -> (line: GoalLine)
    ensures
        line.scorer@ == scorer_of(*goal),
        line.strength is Some <==> strength_tag(*goal) is Some,
        line.strength is Some ==> line.strength->0@ == strength_tag(*goal)->0,
        line.assists@ == assists_bracket(goal.assists@),
{
    let scorer = initial(&goal.first_name).concat(" ").concat(text(&goal.last_name)).concat(
        tally_text(goal.goals_to_date).as_str(),
    );
    let strength = match &goal.strength {
        Some(st) => if text_is(st.as_str(), "ev") {
            None
        } else {
            Some(String::from_str(" ").concat(to_uppercase_text(st.as_str()).as_str()))
        },
        None => None,
    };
    let mut joined = String::new();
    let n = goal.assists.len();
    let mut i: usize = 0;
    assert(goal.assists@.take(0) =~= Seq::<Assist>::empty());
    while i < n
        invariant
            n == goal.assists@.len(),
            i <= n,
            joined@ == assists_joined(goal.assists@.take(i as int)),
        decreases n - i,
    {
        let a = &goal.assists[i];
        let part = initial(&a.first_name).concat(" ").concat(text(&a.last_name)).concat(
            tally_text(a.assists_to_date).as_str(),
        );
        assert(goal.assists@.take(i + 1).drop_last() =~= goal.assists@.take(i as int));
        assert(goal.assists@.take(i + 1).last() == *a);
        if i == 0 {
            assert(goal.assists@.take(1)[0] == *a);
            joined = part;
        } else {
            joined.append(", ");
            joined.append(part.as_str());
        }
        i = i + 1;
    }
    assert(goal.assists@.take(n as int) =~= goal.assists@);
    let assists = if joined.as_str().unicode_len() == 0 {
        String::from_str("  [unassisted]")
    } else {
        String::from_str("  [").concat(joined.as_str()).concat("]")
    };
    GoalLine { scorer, strength, assists }
}

/// The rank shown for a standings row: the filter's sequence number, or the
/// row's position counted from one when the API gave none.
pub open spec fn standing_rank(f: StandingsFilter, s: Standing, i: int) -> int {
    let seq = match f {
        StandingsFilter::League => s.league_sequence,
        StandingsFilter::Conference => s.conference_sequence,
        StandingsFilter::Division => s.division_sequence,
    };
    match seq {
        Some(v) => v as int,
        None => i + 1,
    }
}

/// The eleven cells of a standings row: rank, "Name (ABR)", games played,
/// wins, losses, overtime losses, points, goals for, goals against, goal
/// differential with its sign, and the streak.
pub open spec fn standing_cells(f: StandingsFilter, s: Standing, i: int) -> Seq<Seq<char>> {
    seq![
        decimal(standing_rank(f, s, i) as nat),
        s.team_name.default@ + " ("@ + s.team_abbrev.default@ + ")"@,
        decimal(s.games_played as nat),
        decimal(s.wins as nat),
        decimal(s.losses as nat),
        decimal(s.ot_losses as nat),
        decimal(s.points as nat),
        decimal(s.goal_for as nat),
        decimal(s.goal_against as nat),
        plus_signed_decimal(s.goal_differential as int),
        match s.streak_code {
            Some(c) => c@,
            None => Seq::empty(),
        } + decimal(
            match s.streak_count {
                Some(n) => n as nat,
                None => 0,
            },
        ),
    ]
}

/// The cells of row `i` of the standings table under filter `f`.
pub fn standing_row(f: StandingsFilter, s: &Standing, i: usize) -> (cells: Vec<String>)
    requires
        i < u32::MAX,
    ensures
        cells@.len() == 11,
        forall|k: int| 0 <= k < 11 ==> #[trigger] cells@[k]@ == standing_cells(f, *s, i as int)[k],
{
    let seq = match f {
        StandingsFilter::League => s.league_sequence,
        StandingsFilter::Conference => s.conference_sequence,
        StandingsFilter::Division => s.division_sequence,
    };
    let rank: u32 = match seq {
        Some(v) => v,
        None => i as u32 + 1,
    };
    let mut cells: Vec<String> = Vec::new();
    cells.push(decimal_text(rank as u64));
    cells.push(
        s.team_name.default.clone().concat(" (").concat(s.team_abbrev.default.as_str()).concat(
            ")",
        ),
    );
    cells.push(decimal_text(s.games_played as u64));
    cells.push(decimal_text(s.wins as u64));
    cells.push(decimal_text(s.losses as u64));
    cells.push(decimal_text(s.ot_losses as u64));
    cells.push(decimal_text(s.points as u64));
    cells.push(decimal_text(s.goal_for as u64));
    cells.push(decimal_text(s.goal_against as u64));
    cells.push(plus_signed_text(s.goal_differential as i64));
    let code = match &s.streak_code {
        Some(c) => c.clone(),
        None => String::new(),
    };
    let count: u32 = match s.streak_count {
        Some(n) => n,
        None => 0,
    };
    cells.push(code.concat(decimal_text(count as u64).as_str()));
    cells
}

/// "Maple Leafs" from the team's name, or its abbreviation when the name is
/// missing.
pub fn boxscore_team_name(team: &BoxscoreTeam) -> (s: String)
    ensures
        s@ == (match team.name {
            Some(n) => n.default@,
            None => team.abbrev@,
        }),
{
    match &team.name {
        Some(n) => n.default.clone(),
        None => team.abbrev.clone(),
    }
}

/// "Toronto TOR": a schedule team's city and abbreviation, or the bare
/// abbreviation when the city is unknown.
pub open spec fn city_of(team: ScheduleTeam) -> Seq<char> {
    trimmed_start(
        match team.place_name {
            Some(n) => n.default@,
            None => Seq::empty(),
        } + " "@ + team.abbrev@,
    )
}

pub fn city(team: &ScheduleTeam) -> (s: String)
    ensures
        s@ == city_of(*team),
{
    let place = match &team.place_name {
        Some(n) => n.default.clone(),
        None => String::new(),
    };
    let line = place.concat(" ").concat(team.abbrev.as_str());
    trim_start_text(line.as_str())
}

/// "Connor McDavid": a leader's first and last name with the surrounding
/// space trimmed.
pub open spec fn leader_name_of(first: Option<NameField>, last: Option<NameField>) -> Seq<char> {
    trimmed(name_text(first) + " "@ + name_text(last))
}

pub fn leader_name(first: &Option<NameField>, last: &Option<NameField>) -> (s: String)
    ensures
        s@ == leader_name_of(*first, *last),
{
    let line = String::from_str(text(first)).concat(" ").concat(text(last));
    trim_text(line.as_str())
}

/// "27:44": whole seconds as minutes and zero-padded seconds.
pub open spec fn minutes_seconds(secs: nat) -> Seq<char> {
    decimal(secs / 60) + ":"@ + zero_padded(secs % 60, 2)
}

/// Whole seconds as "m:ss", the format of time on ice.
pub fn minutes_seconds_text(secs: u64) -> (s: String)
    ensures
        s@ == minutes_seconds(secs as nat),
{
    decimal_text(secs / 60).concat(":").concat(zero_padded_text(secs % 60, 2).as_str())
}

/// " Scores 2026-03-10 (Today) ": a panel title naming the day shown.
pub open spec fn date_title_of(name: Seq<char>, date: Seq<char>, today: bool) -> Seq<char> {
    if today {
        " "@ + name + " "@ + date + " (Today) "@
    } else {
        " "@ + name + " "@ + date + " "@
    }
}

/// The title of a dated panel, given whether the day shown is today.
pub fn date_title_with(app: &App, name: &str, today: bool) -> (s: String)
    requires
        app.current_date.wf(),
    ensures
        s@ == date_title_of(name@, iso_date(app.current_date.days_from_ce as int), today),
{
    let head = String::from_str(" ").concat(name).concat(" ").concat(app.date_str().as_str());
    if today {
        head.concat(" (Today) ")
    } else {
        head.concat(" ")
    }
}

/// The title of a dated panel, marked "(Today)" when the day shown is today
/// in the local time zone.
pub fn date_title(app: &App, name: &str) -> (s: String)
    requires
        app.current_date.wf(),
    ensures
        s@ == date_title_of(name@, iso_date(app.current_date.days_from_ce as int), true) || s@
            == date_title_of(name@, iso_date(app.current_date.days_from_ce as int), false),
{
    let today = app.is_today();
    date_title_with(app, name, today)
}

/// What the leaders panel says when the category has no rows: still
/// loading before the first fetch lands, empty after.
pub fn leaders_placeholder(app: &App) -> (s: &'static str)
    ensures
        s@ == (if app.last_updated is Some {
            "No leaders for this category."@
        } else {
            "Loading\u{2026}"@
        }),
{
    if app.last_updated.is_some() {
        "No leaders for this category."
    } else {
        "Loading\u{2026}"
    }
}

/// The three team-and-score cells of a scores-tab row: away team right
/// aligned in three columns then a space, the away score right aligned in
/// two, the home score left aligned in two, and the home team left aligned in
/// three (a missing score shows as 0).
pub open spec fn score_cells(g: Game) -> Seq<Seq<char>> {
    seq![
        padded_left(g.away_team.abbrev@, 3) + " "@,
        padded_left(decimal(score_or_zero_nat(g.away_team.score)), 2),
        padded_right(decimal(score_or_zero_nat(g.home_team.score)), 2),
        padded_right(g.home_team.abbrev@, 3),
    ]
}

pub open spec fn score_or_zero_nat(s: Option<u32>) -> nat {
    match s {
        Some(v) => v as nat,
        None => 0,
    }
}

/// The team and score cells of a game's row on the scores tab.
pub fn score_row(game: &Game) -> (cells: Vec<String>)
    ensures
        cells@.len() == 4,
        forall|k: int| 0 <= k < 4 ==> #[trigger] cells@[k]@ == score_cells(*game)[k],
{
    let away_score: u32 = match game.away_team.score {
        Some(v) => v,
        None => 0,
    };
    let home_score: u32 = match game.home_team.score {
        Some(v) => v,
        None => 0,
    };
    let mut cells: Vec<String> = Vec::new();
    cells.push(pad_left(game.away_team.abbrev.as_str(), 3).concat(" "));
    cells.push(pad_left(decimal_text(away_score as u64).as_str(), 2));
    cells.push(pad_right(decimal_text(home_score as u64).as_str(), 2));
    cells.push(pad_right(game.home_team.abbrev.as_str(), 3));
    cells
}

/// Lines of the schedule panel: per day a heading, its games and a blank.
pub open spec fn week_lines(days: Seq<GameDay>) -> nat
    decreases days.len(),
{
    if days.len() == 0 {
        0
    } else {
        week_lines(days.drop_last()) + days.last().games@.len() + 2
    }
}

/// The line showing game number `selected` of the week, counting the
/// lines before `days` as `base`; 0 when the week has fewer games.
pub open spec fn game_line_from(days: Seq<GameDay>, selected: int, base: int) -> int
    decreases days.len(),
{
    if days.len() == 0 {
        0
    } else if selected < days[0].games@.len() {
        base + 1 + selected
    } else {
        game_line_from(days.drop_first(), selected - days[0].games@.len(), base + days[0].games@.len() + 2)
    }
}

proof fn lemma_week_prefix(days: Seq<GameDay>, i: int)
    requires
        0 <= i < days.len(),
    ensures
        days.take(i + 1).drop_last() == days.take(i),
        days.take(i + 1).last() == days[i],
        week_lines(days.take(i + 1)) <= week_lines(days),
        week_games(days.take(i)) <= week_lines(days.take(i)),
    decreases days.len() - i,
{
    assert(days.take(i + 1).drop_last() =~= days.take(i));
    lemma_week_games_le_lines(days.take(i));
    if i + 1 < days.len() {
        lemma_week_prefix(days, i + 1);
    } else {
        assert(days.take(i + 1) =~= days);
    }
}

proof fn lemma_week_games_le_lines(days: Seq<GameDay>)
    ensures
        week_games(days) <= week_lines(days),
    decreases days.len(),
{
    if days.len() > 0 {
        lemma_week_games_le_lines(days.drop_last());
    }
}

/// Where game number `selected` sits on the schedule panel: its line
/// (0 when there is no such game), the number of games and the number of
/// lines of the week.
pub fn schedule_layout(days: &Vec<GameDay>, selected: usize) -> (r: (usize, usize, usize))
    requires
        week_lines(days@) <= usize::MAX,
    ensures
        r.0 == game_line_from(days@, selected as int, 0),
        r.1 == week_games(days@),
        r.2 == week_lines(days@),
{
    let n = days.len();
    let mut lines: usize = 0;
    let mut games: usize = 0;
    let mut found: Option<usize> = None;
    let mut d: usize = 0;
    assert(days@.take(0) =~= Seq::<GameDay>::empty());
    assert(days@.skip(0) =~= days@);
    while d < n
        invariant
            n == days@.len(),
            d <= n,
            week_lines(days@) <= usize::MAX,
            lines == week_lines(days@.take(d as int)),
            games == week_games(days@.take(d as int)),
            found is None ==> games <= selected && game_line_from(days@, selected as int, 0)
                == game_line_from(days@.skip(d as int), selected - games, lines as int),
            found is Some ==> found->0 == game_line_from(days@, selected as int, 0),
        decreases n - d,
    {
        proof {
            lemma_week_prefix(days@, d as int);
        }
        let count = days[d].games.len();
        assert(days@.skip(d as int)[0] == days@[d as int]);
        assert(days@.skip(d as int).drop_first() =~= days@.skip(d + 1));
        if found.is_none() && selected - games < count {
            found = Some(lines + 1 + (selected - games));
        }
        lines = lines + count + 2;
        games = games + count;
        d = d + 1;
    }
    assert(days@.take(n as int) =~= days@);
    let line = match found {
        Some(l) => l,
        None => 0,
    };
    (line, games, lines)
}

/// The pieces of the status bar, left to right.
#[derive(Debug, Clone, Copy, PartialEq, Eq, Structural)]
pub enum StatusPart {
    /// "Updated: HH:MM:SS", from `last_updated`.
    Updated,
    /// A fetch is in flight.
    Loading,
    /// The favourite team.
    Favorite,
    /// The last fetch's first error.
    Error,
    /// The key reminder, always last.
    Help,
}

/// The status bar shows the time of the last update, a loading marker, the
/// favourite team and the last error, each only when there is one, then the
/// key reminder.
pub open spec fn status_parts_of(a: App) -> Seq<StatusPart> {
    (if a.last_updated is Some { seq![StatusPart::Updated] } else { Seq::empty() })
        + (if a.loading { seq![StatusPart::Loading] } else { Seq::empty() })
        + (if a.favorite_team is Some { seq![StatusPart::Favorite] } else { Seq::empty() })
        + (if a.error is Some { seq![StatusPart::Error] } else { Seq::empty() })
        + seq![StatusPart::Help]
}

pub fn status_parts(app: &App) -> (parts: Vec<StatusPart>)
    ensures
        parts@ == status_parts_of(*app),
{
    let mut parts: Vec<StatusPart> = Vec::new();
    if app.last_updated.is_some() {
        parts.push(StatusPart::Updated);
    }
    let ghost p1 = parts@;
    if app.loading {
        parts.push(StatusPart::Loading);
    }
    let ghost p2 = parts@;
    if app.favorite_team.is_some() {
        parts.push(StatusPart::Favorite);
    }
    let ghost p3 = parts@;
    if app.error.is_some() {
        parts.push(StatusPart::Error);
    }
    let ghost p4 = parts@;
    parts.push(StatusPart::Help);
    assert(parts@ =~= status_parts_of(*app));
    parts
}

/// Every goal of the summary credited to `team` (`by_team`), or to anyone
/// else, whatever its period.
pub open spec fn side_goals(periods: Seq<ScoringPeriod>, team: Seq<char>, by_team: bool) -> nat
    decreases periods.len(),
{
    if periods.len() == 0 {
        0
    } else {
        side_goals(periods.drop_last(), team, by_team) + goals_of(periods.last().goals@, team, by_team)
    }
}

/// The four period columns of a side add up to all of that side's goals,
/// which are no more than the goals of the summary.
pub proof fn lemma_slots_add_up(periods: Seq<ScoringPeriod>, team: Seq<char>, by_team: bool)
    ensures
        slot_goals(periods, team, by_team, 0) + slot_goals(periods, team, by_team, 1) + slot_goals(
            periods,
            team,
            by_team,
            2,
        ) + slot_goals(periods, team, by_team, 3) == side_goals(periods, team, by_team),
        side_goals(periods, team, by_team) <= total_goals(periods),
    decreases periods.len(),
{
    if periods.len() > 0 {
        lemma_slots_add_up(periods.drop_last(), team, by_team);
        lemma_goals_of_bound(periods.last().goals@, team, by_team);
    }
}

/// The Total column: the goals of the four period columns added up.
pub fn period_total(counts: &[u32; 4]) -> (t: u32)
    requires
        counts@[0] + counts@[1] + counts@[2] + counts@[3] <= u32::MAX,
    ensures
        t == counts@[0] + counts@[1] + counts@[2] + counts@[3],
{
    counts[0] + counts[1] + counts[2] + counts[3]
}

/// The heading a standings row sits under: its conference or division, or
/// none in the league table.
pub open spec fn group_name(f: StandingsFilter, s: Standing) -> Option<Seq<char>> {
    match f {
        StandingsFilter::Conference => Some(s.conference_name@),
        StandingsFilter::Division => Some(s.division_name@),
        StandingsFilter::League => None,
    }
}

/// Row `i` starts a new group: it has a heading, and the row before it has
/// another one (or there is none).
pub open spec fn opens_group(f: StandingsFilter, rows: Seq<&Standing>, i: int) -> bool {
    group_name(f, *rows[i]) is Some && (i == 0 || group_name(f, *rows[i]) != group_name(
        f,
        *rows[i - 1],
    ))
}

/// Headings drawn above the first `n` rows.
pub open spec fn headings_before(f: StandingsFilter, rows: Seq<&Standing>, n: int) -> nat
    decreases n,
{
    if n <= 0 {
        0
    } else {
        headings_before(f, rows, n - 1) + if opens_group(f, rows, n - 1) {
            1nat
        } else {
            0nat
        }
    }
}

/// The table line of row `selected`: the row itself plus every heading drawn
/// above it, or the first line when there is no such row.
pub open spec fn standings_selected_line(f: StandingsFilter, rows: Seq<&Standing>, selected: int) -> int {
    if 0 <= selected < rows.len() {
        selected + headings_before(f, rows, selected + 1)
    } else {
        0
    }
}

proof fn lemma_headings_bound(f: StandingsFilter, rows: Seq<&Standing>, n: int)
    requires
        0 <= n,
    ensures
        headings_before(f, rows, n) <= n,
    decreases n,
{
    if n > 0 {
        lemma_headings_bound(f, rows, n - 1);
    }
}

/// Where the standings table draws its group headings: in the division
/// view a row opens a group exactly when its division differs from the row
/// above (or it is the first row), in the conference view when its
/// conference does, and the league table has no headings. The selected row
/// sits below every heading drawn above it and its own: one line further
/// down per row, and one more where that row opens a group.
pub proof fn lemma_headings_open_where_the_group_changes(
    rows: Seq<&Standing>,
    i: int,
)
    requires
        0 <= i < rows.len(),
    ensures
        opens_group(StandingsFilter::Division, rows, i) <==> (i == 0 || rows[i].division_name@
            != rows[i - 1].division_name@),
        opens_group(StandingsFilter::Conference, rows, i) <==> (i == 0
            || rows[i].conference_name@ != rows[i - 1].conference_name@),
        !opens_group(StandingsFilter::League, rows, i),
        standings_selected_line(StandingsFilter::League, rows, i) == i,
        forall|f: StandingsFilter|
            #![trigger standings_selected_line(f, rows, i)]
            i == 0 ==> standings_selected_line(f, rows, i) == (if f == StandingsFilter::League {
                0int
            } else {
                1int
            }),
        forall|f: StandingsFilter|
            #![trigger standings_selected_line(f, rows, i)]
            i > 0 ==> standings_selected_line(f, rows, i) == standings_selected_line(f, rows, i - 1)
                + 1 + (if opens_group(f, rows, i) {
                1int
            } else {
                0int
            }),
{
    assert(headings_before(StandingsFilter::League, rows, i + 1) == 0) by {
        lemma_no_league_headings(rows, i + 1);
    }
    assert forall|f: StandingsFilter| i == 0 implies #[trigger] standings_selected_line(f, rows, i)
        == (if f == StandingsFilter::League {
        0int
    } else {
        1int
    }) by {
        assert(headings_before(f, rows, 0) == 0);
    }
}

proof fn lemma_no_league_headings(rows: Seq<&Standing>, n: int)
    ensures
        headings_before(StandingsFilter::League, rows, n) == 0,
    decreases n,
{
    if n > 0 {
        lemma_no_league_headings(rows, n - 1);
    }
}

/// How the standings table is laid out: for each row, whether a group
/// heading is drawn above it, and the table line of the selected row.
pub fn standings_layout(f: StandingsFilter, rows: &Vec<&Standing>, selected: usize) -> (r: (Vec<bool>, usize))
    requires
        2 * rows@.len() <= usize::MAX,
    ensures
        r.0@.len() == rows@.len(),
        forall|i: int| 0 <= i < rows@.len() ==> #[trigger] r.0@[i] == opens_group(f, rows@, i),
        r.1 == standings_selected_line(f, rows@, selected as int),
        f == StandingsFilter::Division ==> forall|i: int|
            0 <= i < rows@.len() ==> (#[trigger] r.0@[i] <==> (i == 0 || rows@[i].division_name@
                != rows@[i - 1].division_name@)),
        f == StandingsFilter::Conference ==> forall|i: int|
            0 <= i < rows@.len() ==> (#[trigger] r.0@[i] <==> (i == 0
                || rows@[i].conference_name@ != rows@[i - 1].conference_name@)),
        f == StandingsFilter::League ==> forall|i: int| 0 <= i < rows@.len() ==> !#[trigger] r.0@[i],
{
    let n = rows.len();
    let mut opens: Vec<bool> = Vec::new();
    let mut count: usize = 0;
    let mut line: usize = 0;
    let mut i: usize = 0;
    while i < n
        invariant
            n == rows@.len(),
            2 * n <= usize::MAX,
            i <= n,
            opens@.len() == i,
            forall|j: int| 0 <= j < i ==> #[trigger] opens@[j] == opens_group(f, rows@, j),
            count == headings_before(f, rows@, i as int),
            line == (if selected < i {
                standings_selected_line(f, rows@, selected as int)
            } else {
                0
            }),
        decreases n - i,
    {
        let row = rows[i];
        let opens_here = match f {
            StandingsFilter::League => false,
            StandingsFilter::Conference => i == 0 || !(row.conference_name
                == rows[i - 1].conference_name),
            StandingsFilter::Division => i == 0 || !(row.division_name == rows[i - 1].division_name),
        };
        proof {
            lemma_headings_bound(f, rows@, i as int);
        }
        opens.push(opens_here);
        if opens_here {
            count = count + 1;
        }
        if i == selected {
            line = i + count;
        }
        i = i + 1;
    }
    (opens, line)
}

} // verus!
