//! The records the NHL web API answers with, as plain values. Decoding JSON
//! into them is the driver's business; everything here is what the rest of
//! the library reads.
//!
//! Two fields of the API are floating point (a points percentage and a
//! leader's stat value). They are carried as the IEEE-754 bit pattern of the
//! `f64` the API sent, so that nothing here computes with them.

use vstd::prelude::*;

use crate::text::{decimal, decimal_text};

verus! {

#[derive(Debug, Clone, PartialEq)]
pub struct ScoreResponse {
    pub games: Vec<Game>,
}

#[derive(Debug, Clone, PartialEq)]
pub struct Game {
    pub id: u64,
    /// RFC 3339 start time in UTC, when the API knows it.
    pub start_time_utc: Option<String>,
    pub game_state: String,
    pub away_team: TeamScore,
    pub home_team: TeamScore,
    pub game_outcome: Option<GameOutcome>,
    pub period: Option<u32>,
    pub period_descriptor: Option<PeriodDescriptor>,
    pub clock: Option<GameClock>,
}

#[derive(Debug, Clone, PartialEq)]
pub struct TeamScore {
    pub abbrev: String,
    pub score: Option<u32>,
}

#[derive(Debug, Clone, PartialEq)]
pub struct TeamName {
    pub default: String,
}

#[derive(Debug, Clone, PartialEq)]
pub struct GameOutcome {
    pub last_period_type: Option<String>,
}

#[derive(Debug, Clone, PartialEq)]
pub struct GameClock {
    pub time_remaining: Option<String>,
}

#[derive(Debug, Clone, PartialEq)]
pub struct PeriodDescriptor {
    pub number: u32,
    pub period_type: Option<String>,
}

/// Whether an optional string is present and equal to `lit`.
pub open spec fn opt_text_is(o: Option<String>, lit: Seq<char>) -> bool {
    match o {
        Some(t) => t@ == lit,
        None => false,
    }
}

/// "1st", "2nd", "3rd", "OT", then "2OT", "3OT", ... for longer overtimes,
/// and "SO" for a shootout whatever its number.
pub open spec fn period_label(number: u32, period_type: Option<String>) -> Seq<char> {
    if opt_text_is(period_type, "SO"@) {
        "SO"@
    } else if number == 1 {
        "1st"@
    } else if number == 2 {
        "2nd"@
    } else if number == 3 {
        "3rd"@
    } else if number == 4 {
        "OT"@
    } else {
        decimal(if number >= 3 { (number - 3) as nat } else { 0 }) + "OT"@
    }
}

/// Whether an optional string is present and equal to `lit`.
pub fn opt_is(o: &Option<String>, lit: &str) -> (b: bool)
    ensures
        b == opt_text_is(*o, lit@),
{
    match o {
        Some(t) => crate::text::text_is(t.as_str(), lit),
        None => false,
    }
}

impl PeriodDescriptor {
    /// "1st", "2nd", "3rd", "OT", "2OT", "SO".
    pub fn label(&self) -> (s: String)
        ensures
            s@ == period_label(self.number, self.period_type),
    {
        if opt_is(&self.period_type, "SO") {
            String::from_str("SO")
        } else if self.number == 1 {
            String::from_str("1st")
        } else if self.number == 2 {
            String::from_str("2nd")
        } else if self.number == 3 {
            String::from_str("3rd")
        } else if self.number == 4 {
            String::from_str("OT")
        } else {
            // saturating: the period number is server-supplied, and 0
            // would underflow.
            let extra: u32 = if self.number >= 3 { self.number - 3 } else { 0 };
            decimal_text(extra as u64).concat("OT")
        }
    }
}

#[derive(Debug, Clone, PartialEq)]
pub struct StandingsResponse {
    pub standings: Vec<Standing>,
}

#[derive(Debug, Clone, PartialEq)]
pub struct Standing {
    pub team_name: TeamName,
    pub team_abbrev: TeamAbbrev,
    pub conference_name: String,
    pub division_name: String,
    pub games_played: u32,
    pub wins: u32,
    pub losses: u32,
    pub ot_losses: u32,
    pub points: u32,
    pub goal_for: u32,
    pub goal_against: u32,
    pub goal_differential: i32,
    pub streak_code: Option<String>,
    pub streak_count: Option<u32>,
    pub division_sequence: Option<u32>,
    pub conference_sequence: Option<u32>,
    pub league_sequence: Option<u32>,
    /// Bit pattern of the `f64` points percentage.
    pub point_pctg_bits: Option<u64>,
    pub l10_wins: Option<u32>,
    pub l10_losses: Option<u32>,
    pub l10_ot_losses: Option<u32>,
    /// 0 for a team holding a top-three spot in its division; 1 and 2 are the
    /// two wild card berths; 3 and up are outside the playoff picture.
    pub wildcard_sequence: Option<u32>,
}

impl Standing {
    /// Whether the team currently holds a playoff berth: a divisional top
    /// three, or one of the conference's two wild cards.
    pub fn in_playoff_spot(&self) -> (b: bool)
        ensures
            b == (self.wildcard_sequence is Some && self.wildcard_sequence->0 <= 2),
    {
        match self.wildcard_sequence {
            Some(n) => n <= 2,
            None => false,
        }
    }

    /// Record over the last ten games, as "W-L-OTL"; `None` unless all three
    /// counts are known.
    pub fn last_ten(&self) -> (r: Option<String>)
        ensures
            r is Some <==> (self.l10_wins is Some && self.l10_losses is Some
                && self.l10_ot_losses is Some),
            r is Some ==> r->0@ == decimal(self.l10_wins->0 as nat) + "-"@ + decimal(
                self.l10_losses->0 as nat,
            ) + "-"@ + decimal(self.l10_ot_losses->0 as nat),
    {
        match (self.l10_wins, self.l10_losses, self.l10_ot_losses) {
            (Some(w), Some(l), Some(o)) => {
                let s = decimal_text(w as u64).concat("-").concat(
                    decimal_text(l as u64).as_str(),
                ).concat("-").concat(decimal_text(o as u64).as_str());
                Some(s)
            },
            _ => None,
        }
    }
}

#[derive(Debug, Clone, PartialEq)]
pub struct TeamAbbrev {
    pub default: String,
}

#[derive(Debug, Clone, PartialEq)]
pub struct ScheduleResponse {
    pub game_week: Vec<GameDay>,
    /// Nearest dates on either side that actually have games, and the season
    /// boundaries. These are what make an empty week actionable.
    pub next_start_date: Option<String>,
    pub previous_start_date: Option<String>,
    pub regular_season_start_date: Option<String>,
}

#[derive(Debug, Clone, PartialEq)]
pub struct GameDay {
    pub date: String,
    pub day_abbrev: String,
    pub games: Vec<ScheduleGame>,
}

#[derive(Debug, Clone, PartialEq)]
pub struct ScheduleGame {
    pub start_time_utc: String,
    pub away_team: ScheduleTeam,
    pub home_team: ScheduleTeam,
}

#[derive(Debug, Clone, PartialEq)]
pub struct ScheduleTeam {
    pub abbrev: String,
    pub place_name: Option<TeamName>,
}

#[derive(Debug, Clone, PartialEq)]
pub struct StatLeader {
    pub first_name: Option<NameField>,
    pub last_name: Option<NameField>,
    pub position: Option<String>,
    pub team_abbrev: Option<String>,
    /// Bit pattern of the `f64` stat value: an integer for counting stats, a
    /// fraction for faceoff % and seconds for time on ice.
    pub value_bits: Option<u64>,
}

#[derive(Debug, Clone, PartialEq)]
pub struct NameField {
    pub default: String,
}

#[derive(Debug, Clone, PartialEq)]
pub struct BoxscoreResponse {
    pub away_team: BoxscoreTeam,
    pub home_team: BoxscoreTeam,
    pub summary: Option<Summary>,
}

/// The `/boxscore` endpoint, which is where shots on goal live; the
/// `/landing` one carries the scoring and penalty summaries.
#[derive(Debug, Clone, PartialEq)]
pub struct GameStats {
    pub away_team: TeamStats,
    pub home_team: TeamStats,
}

#[derive(Debug, Clone, PartialEq)]
pub struct TeamStats {
    pub sog: Option<u32>,
}

#[derive(Debug, Clone, PartialEq)]
pub struct Summary {
    pub scoring: Option<Vec<ScoringPeriod>>,
    pub penalties: Option<Vec<PenaltyPeriod>>,
    pub three_stars: Option<Vec<ThreeStar>>,
}

#[derive(Debug, Clone, PartialEq)]
pub struct PenaltyPeriod {
    pub period_descriptor: PeriodDescriptor,
    pub penalties: Vec<Penalty>,
}

#[derive(Debug, Clone, PartialEq)]
pub struct Penalty {
    pub time_in_period: String,
    pub duration: Option<u32>,
    pub committed_by_player: Option<PlayerName>,
    pub team_abbrev: Option<NameField>,
    /// A slug such as "interference"; rendered with the underscores removed.
    pub desc_key: Option<String>,
}

#[derive(Debug, Clone, PartialEq)]
pub struct PlayerName {
    pub first_name: Option<NameField>,
    pub last_name: Option<NameField>,
}

#[derive(Debug, Clone, PartialEq)]
pub struct ThreeStar {
    pub star: u32,
    pub name: Option<NameField>,
    pub team_abbrev: Option<String>,
    pub position: Option<String>,
    pub goals: Option<u32>,
    pub assists: Option<u32>,
}

#[derive(Debug, Clone, PartialEq)]
pub struct BoxscoreTeam {
    pub abbrev: String,
    pub name: Option<TeamName>,
    pub score: Option<u32>,
}

#[derive(Debug, Clone, PartialEq)]
pub struct ScoringPeriod {
    pub period_descriptor: PeriodDescriptor,
    pub goals: Vec<Goal>,
}

#[derive(Debug, Clone, PartialEq)]
pub struct Goal {
    pub time_in_period: String,
    pub team_abbrev: NameField,
    pub first_name: Option<NameField>,
    pub last_name: Option<NameField>,
    pub strength: Option<String>,
    pub assists: Vec<Assist>,
    pub goals_to_date: Option<u32>,
}

#[derive(Debug, Clone, PartialEq)]
pub struct Assist {
    pub first_name: Option<NameField>,
    pub last_name: Option<NameField>,
    pub assists_to_date: Option<u32>,
}

} // verus!
