use nhl_tui::api::{
    boxscore_url, leaders_url, preview, schedule_url, scores_url, standings_url, LEADER_LIMIT,
};
use nhl_tui::models::{Standing, StandingsResponse, TeamAbbrev, TeamName};
use nhl_tui::app::App;
use nhl_tui::standings::{standings_order, text_le_exec};
use nhl_tui::tabs::{cycle, LeaderCategory, StandingsFilter, Tab};
use nhl_tui::text::{decimal_text, plus_signed_text, signed_text, trim_text, zero_padded_text};

fn standing(abbrev: &str, conference: &str, division: &str, seqs: (Option<u32>, Option<u32>, Option<u32>)) -> Standing {
    Standing {
        team_name: TeamName { default: format!("{abbrev} name") },
        team_abbrev: TeamAbbrev { default: abbrev.into() },
        conference_name: conference.into(),
        division_name: division.into(),
        games_played: 60,
        wins: 35,
        losses: 20,
        ot_losses: 5,
        points: 75,
        goal_for: 200,
        goal_against: 180,
        goal_differential: 20,
        streak_code: Some("W".into()),
        streak_count: Some(3),
        division_sequence: seqs.1,
        conference_sequence: seqs.0,
        league_sequence: seqs.2,
        point_pctg_bits: None,
        l10_wins: Some(6),
        l10_losses: Some(3),
        l10_ot_losses: Some(1),
        wildcard_sequence: Some(0),
    }
}

#[test]
fn standing_last_ten_and_playoff_spot() {
    let mut s = standing("TOR", "Eastern", "Atlantic", (Some(1), Some(1), Some(1)));
    assert_eq!(s.last_ten().as_deref(), Some("6-3-1"));
    assert!(s.in_playoff_spot());
    s.wildcard_sequence = Some(2);
    assert!(s.in_playoff_spot());
    s.wildcard_sequence = Some(3);
    assert!(!s.in_playoff_spot());
    s.wildcard_sequence = None;
    assert!(!s.in_playoff_spot());
    s.l10_losses = None;
    assert_eq!(s.last_ten(), None);
}

#[test]
fn standings_sort_by_group_then_rank_stably() {
    let rows = vec![
        standing("VAN", "Western", "Pacific", (Some(2), Some(1), Some(5))),
        standing("TOR", "Eastern", "Atlantic", (Some(1), Some(1), Some(1))),
        standing("EDM", "Western", "Pacific", (Some(1), Some(2), None)),
        standing("BOS", "Eastern", "Atlantic", (None, Some(2), Some(3))),
        standing("MTL", "Eastern", "Atlantic", (None, Some(3), Some(4))),
    ];
    assert_eq!(standings_order(StandingsFilter::Conference, &rows), vec![1, 3, 4, 2, 0]);
    assert_eq!(standings_order(StandingsFilter::Division, &rows), vec![1, 3, 4, 0, 2]);
    assert_eq!(standings_order(StandingsFilter::League, &rows), vec![1, 3, 4, 0, 2]);

    let mut app = App::new(None, 0);
    app.standings = Some(StandingsResponse { standings: rows });
    let listed: Vec<&str> =
        app.filtered_standings().iter().map(|s| s.team_abbrev.default.as_str()).collect();
    assert_eq!(listed, ["TOR", "BOS", "MTL", "EDM", "VAN"]);
    let group = app.standings_group(app.filtered_standings()[3]);
    assert_eq!(group, Some("Western"));
    app.standings_filter = StandingsFilter::League;
    assert_eq!(app.standings_group(app.filtered_standings()[0]), None);
    assert_eq!(app.row_count(), 0, "the scores tab is active and empty");
    app.active_tab = Tab::Standings;
    assert_eq!(app.row_count(), 5);
}

#[test]
fn text_orders_by_code_point() {
    assert!(text_le_exec("Eastern", "Western"));
    assert!(!text_le_exec("Western", "Eastern"));
    assert!(text_le_exec("East", "Eastern"));
    assert!(text_le_exec("", ""));
    assert!(text_le_exec("Zed", "apple"), "upper case sorts before lower case");
}

#[test]
fn integers_are_spelled_as_format_does() {
    assert_eq!(decimal_text(0), "0");
    assert_eq!(decimal_text(1664), "1664");
    assert_eq!(decimal_text(u64::MAX), u64::MAX.to_string());
    assert_eq!(signed_text(-42), "-42");
    assert_eq!(signed_text(i64::MIN), i64::MIN.to_string());
    assert_eq!(plus_signed_text(0), "+0");
    assert_eq!(plus_signed_text(12), "+12");
    assert_eq!(plus_signed_text(-3), "-3");
    assert_eq!(zero_padded_text(7, 2), "07");
    assert_eq!(zero_padded_text(123, 2), "123");
    assert_eq!(trim_text("  Connor McDavid \t"), "Connor McDavid");
}

#[test]
fn requests_go_to_the_documented_endpoints() {
    assert_eq!(scores_url("2026-03-10"), "https://api-web.nhle.com/v1/score/2026-03-10");
    assert_eq!(standings_url(), "https://api-web.nhle.com/v1/standings/now");
    assert_eq!(schedule_url("2026-03-10"), "https://api-web.nhle.com/v1/schedule/2026-03-10");
    assert_eq!(
        leaders_url(LEADER_LIMIT),
        "https://api-web.nhle.com/v1/skater-stats-leaders/current?limit=10"
    );
    assert_eq!(
        boxscore_url(2025021000),
        "https://api-web.nhle.com/v1/gamecenter/2025021000/landing"
    );
}

#[test]
fn previews_are_cut_on_characters() {
    let short = "é".repeat(200);
    assert_eq!(preview(&short), short);
    let long = "é".repeat(250);
    let p = preview(&long);
    assert_eq!(p.chars().count(), 201);
    assert!(p.ends_with('\u{2026}'));
    assert!(p.starts_with(&"é".repeat(200)));
}

#[test]
fn category_labels_and_keys() {
    let keys: Vec<&str> = LeaderCategory::ALL.iter().map(|c| c.api_key()).collect();
    assert_eq!(
        keys,
        ["points", "goals", "assists", "plusMinus", "penaltyMins", "goalsPp", "goalsSh", "faceoffLeaders", "toi"]
    );
    assert_eq!(LeaderCategory::PlusMinus.as_str(), "+/-");
    assert_eq!(StandingsFilter::Division.as_str(), "Division");
    assert_eq!(Tab::Leaders.title(), "[4] Leaders");
    for (i, t) in Tab::ALL.iter().enumerate() {
        assert_eq!(Tab::from_index(i), *t);
        assert_eq!(t.index(), i);
    }
    assert_eq!(Tab::from_index(7), Tab::Scores);
}

#[test]
fn cycle_steps_from_a_position_and_treats_a_missing_one_as_the_first() {
    let all = [10, 20, 30];
    assert_eq!(cycle(&all, 0, 1), 20);
    assert_eq!(cycle(&all, 0, -1), 30);
    assert_eq!(cycle(&all, 2, 1), 10);
    assert_eq!(cycle(&all, 7, 1), 20, "a position past the end counts as the first");
    assert_eq!(cycle(&all, 1, -4), 10);
    assert_eq!(cycle(&all, 1, isize::MIN), 30, "(1 - 2^63) mod 3 is 2");
}
