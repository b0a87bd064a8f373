use nhl_tui::app::App;
use nhl_tui::calendar::{CalendarDay, ClockTime};
use nhl_tui::models::{
    Assist, BoxscoreTeam, Game, GameClock, GameDay, GameOutcome, Goal, NameField,
    PeriodDescriptor, ScheduleGame, ScheduleTeam, ScoringPeriod, TeamName, TeamScore,
};
use nhl_tui::tabs::StandingsFilter;
use nhl_tui::view::{
    boxscore_team_name, city, date_title_with, game_state_label, game_state_label_with,
    goal_line, initial, leader_name, leaders_placeholder, minutes_seconds_text,
    period_goal_counts, schedule_layout, score_row, scroll_offset, standing_row, start_time,
    standings_layout, status_parts, text, StateTone, StatusPart,
};

#[test]
fn short_lists_never_scroll() {
    assert_eq!(scroll_offset(0, 10, 5), 0);
    assert_eq!(scroll_offset(4, 10, 5), 0);
}

#[test]
fn selection_stays_visible_in_long_lists() {
    // 20 rows in a 5-row viewport.
    assert_eq!(scroll_offset(0, 5, 20), 0);
    assert_eq!(scroll_offset(4, 5, 20), 0, "still on the first screen");
    assert_eq!(scroll_offset(5, 5, 20), 1);
    assert_eq!(scroll_offset(19, 5, 20), 15, "clamped to the last screen");
}

#[test]
fn zero_height_is_handled() {
    assert_eq!(scroll_offset(3, 0, 20), 0);
}

fn name(s: &str) -> Option<NameField> {
    Some(NameField { default: s.into() })
}

fn live_game(state: &str) -> Game {
    Game {
        id: 1,
        start_time_utc: None,
        game_state: state.into(),
        away_team: TeamScore { abbrev: "TOR".into(), score: Some(3) },
        home_team: TeamScore { abbrev: "MTL".into(), score: None },
        game_outcome: None,
        period: Some(2),
        period_descriptor: None,
        clock: None,
    }
}

#[test]
fn game_states_are_labelled() {
    let mut g = live_game("LIVE");
    assert_eq!(game_state_label(&g), ("LIVE 2".to_string(), StateTone::Live));
    g.period_descriptor = Some(PeriodDescriptor { number: 4, period_type: Some("OT".into()) });
    g.clock = Some(GameClock { time_remaining: Some("03:12".into()) });
    g.game_state = "CRIT".into();
    assert_eq!(game_state_label(&g).0, "LIVE OT 03:12");
    g.game_state = "OFF".into();
    g.game_outcome = Some(GameOutcome { last_period_type: Some("SO".into()) });
    assert_eq!(game_state_label(&g), ("FINAL/SO".to_string(), StateTone::Final));
    g.game_state = "FINAL".into();
    g.game_outcome = None;
    assert_eq!(game_state_label(&g).0, "FINAL");
    g.game_state = "FUT".into();
    assert_eq!(game_state_label(&g), ("TBD".to_string(), StateTone::Upcoming));
    assert_eq!(game_state_label_with(&g, "7:00 PM").0, "7:00 PM");
    g.game_state = "PPD".into();
    assert_eq!(game_state_label(&g), ("PPD".to_string(), StateTone::Other));
    assert_eq!(start_time(&None), "TBD");
    assert_eq!(start_time(&Some("not a time".into())), "TBD");
}

#[test]
fn scores_rows_are_aligned() {
    let g = live_game("LIVE");
    assert_eq!(score_row(&g), vec!["TOR ", " 3", "0 ", "MTL"]);
}

#[test]
fn names_initials_and_cities() {
    assert_eq!(initial(&name("Connor")), "C.");
    assert_eq!(initial(&name("Émile")), "É.");
    assert_eq!(initial(&name("")), "");
    assert_eq!(initial(&None), "");
    assert_eq!(text(&name("McDavid")), "McDavid");
    assert_eq!(text(&None), "");
    assert_eq!(leader_name(&None, &name("Giroux")), "Giroux");
    assert_eq!(leader_name(&name("Connor"), &name("McDavid")), "Connor McDavid");
    let team = ScheduleTeam { abbrev: "TOR".into(), place_name: None };
    assert_eq!(city(&team), "TOR");
    let team = ScheduleTeam { abbrev: "TOR".into(), place_name: Some(TeamName { default: "Toronto".into() }) };
    assert_eq!(city(&team), "Toronto TOR");
    let bt = BoxscoreTeam { abbrev: "TOR".into(), name: None, score: None };
    assert_eq!(boxscore_team_name(&bt), "TOR");
}

fn goal(team: &str, assists: Vec<Assist>, strength: Option<&str>) -> Goal {
    Goal {
        time_in_period: "12:34".into(),
        team_abbrev: NameField { default: team.into() },
        first_name: name("Auston"),
        last_name: name("Matthews"),
        strength: strength.map(str::to_string),
        assists,
        goals_to_date: Some(41),
    }
}

#[test]
fn goal_lines_name_scorer_strength_and_assists() {
    let assist = |first: &str, last: &str, n| Assist {
        first_name: name(first),
        last_name: name(last),
        assists_to_date: Some(n),
    };
    let line = goal_line(&goal("TOR", vec![assist("Mitch", "Marner", 60), assist("William", "Nylander", 30)], Some("pp")));
    assert_eq!(line.scorer, "A. Matthews (41)");
    assert_eq!(line.strength.as_deref(), Some(" PP"));
    assert_eq!(line.assists, "  [M. Marner (60), W. Nylander (30)]");
    let line = goal_line(&goal("TOR", vec![], Some("ev")));
    assert_eq!(line.strength, None);
    assert_eq!(line.assists, "  [unassisted]");
}

#[test]
fn goals_are_tallied_per_period() {
    let period = |number, goals| ScoringPeriod {
        period_descriptor: PeriodDescriptor { number, period_type: None },
        goals,
    };
    let periods = vec![
        period(1, vec![goal("TOR", vec![], None), goal("MTL", vec![], None)]),
        period(3, vec![goal("TOR", vec![], None)]),
        period(5, vec![goal("MTL", vec![], None)]),
        period(0, vec![goal("TOR", vec![], None)]),
    ];
    let (away, home) = period_goal_counts(&periods, &"TOR".to_string());
    assert_eq!(away, [2, 0, 1, 0]);
    assert_eq!(home, [1, 0, 0, 1]);
}

#[test]
fn standings_rows_show_rank_record_and_streak() {
    let s = nhl_tui::models::Standing {
        team_name: TeamName { default: "Maple Leafs".into() },
        team_abbrev: nhl_tui::models::TeamAbbrev { default: "TOR".into() },
        conference_name: "Eastern".into(),
        division_name: "Atlantic".into(),
        games_played: 60,
        wins: 35,
        losses: 20,
        ot_losses: 5,
        points: 75,
        goal_for: 180,
        goal_against: 190,
        goal_differential: -10,
        streak_code: Some("L".into()),
        streak_count: Some(2),
        division_sequence: Some(3),
        conference_sequence: None,
        league_sequence: Some(12),
        point_pctg_bits: None,
        l10_wins: None,
        l10_losses: None,
        l10_ot_losses: None,
        wildcard_sequence: None,
    };
    let row = standing_row(StandingsFilter::Division, &s, 4);
    assert_eq!(row, vec!["3", "Maple Leafs (TOR)", "60", "35", "20", "5", "75", "180", "190", "-10", "L2"]);
    assert_eq!(standing_row(StandingsFilter::Conference, &s, 4)[0], "5");
}

#[test]
fn schedule_lines_place_the_selected_game() {
    let sg = || ScheduleGame {
        start_time_utc: "2026-03-10T23:00:00Z".into(),
        away_team: ScheduleTeam { abbrev: "TOR".into(), place_name: None },
        home_team: ScheduleTeam { abbrev: "MTL".into(), place_name: None },
    };
    let day = |n| GameDay { date: "2026-03-10".into(), day_abbrev: "TUE".into(), games: (0..n).map(|_| sg()).collect() };
    let days = vec![day(2), day(0), day(3)];
    // heading, 2 games, blank, heading, blank, heading, 3 games, blank
    assert_eq!(schedule_layout(&days, 0), (1, 5, 11));
    assert_eq!(schedule_layout(&days, 1), (2, 5, 11));
    assert_eq!(schedule_layout(&days, 2), (7, 5, 11));
    assert_eq!(schedule_layout(&days, 4), (9, 5, 11));
    assert_eq!(schedule_layout(&days, 5).0, 0, "no such game");
}

#[test]
fn time_on_ice_reads_as_minutes_and_seconds() {
    assert_eq!(minutes_seconds_text(1664), "27:44");
    assert_eq!(minutes_seconds_text(59), "0:59");
    assert_eq!(minutes_seconds_text(0), "0:00");
}

#[test]
fn titles_status_and_placeholders() {
    let day = CalendarDay::from_days_from_ce(739685).unwrap();
    let mut app = App::starting_on(Some("tor".into()), 0, day);
    assert_eq!(date_title_with(&app, "Scores", true), " Scores 2026-03-10 (Today) ");
    assert_eq!(date_title_with(&app, "Schedule", false), " Schedule 2026-03-10 ");
    assert_eq!(leaders_placeholder(&app), "Loading\u{2026}");
    assert_eq!(status_parts(&app), vec![StatusPart::Favorite, StatusPart::Help]);
    app.last_updated = Some(ClockTime { hour: 9, minute: 5, second: 7 });
    app.loading = true;
    app.error = Some("boom".into());
    assert_eq!(app.last_updated.unwrap().hms_text(), "09:05:07");
    assert_eq!(leaders_placeholder(&app), "No leaders for this category.");
    assert_eq!(
        status_parts(&app),
        vec![StatusPart::Updated, StatusPart::Loading, StatusPart::Favorite, StatusPart::Error, StatusPart::Help]
    );
}

#[test]
fn start_times_parse_or_read_tbd() {
    assert_eq!(start_time(&Some("soon".into())), "TBD");
    let local = start_time(&Some("2026-03-10T23:00:00Z".into()));
    assert_ne!(local, "TBD");
    assert!(is_clock_face(&local), "{local}");
}

/// "H:MM AM" or "H:MM PM", the hour 1 to 12 without padding.
fn is_clock_face(s: &str) -> bool {
    let Some((time, half)) = s.split_once(' ') else { return false };
    let Some((hour, minute)) = time.split_once(':') else { return false };
    let hour_ok = !hour.starts_with('0')
        && hour.chars().all(|c| c.is_ascii_digit())
        && matches!(hour.parse::<u32>(), Ok(1..=12));
    let minute_ok = minute.len() == 2
        && minute.chars().all(|c| c.is_ascii_digit())
        && matches!(minute.parse::<u32>(), Ok(0..=59));
    hour_ok && minute_ok && (half == "AM" || half == "PM")
}

#[test]
fn upcoming_games_show_a_twelve_hour_start_time() {
    let mut g = live_game("FUT");
    g.start_time_utc = Some("2026-03-10T23:00:00Z".into());
    let (label, tone) = game_state_label(&g);
    assert_eq!(tone, StateTone::Upcoming);
    assert!(is_clock_face(&label), "{label}");
    g.start_time_utc = Some("2026-03-10T23:00:00".into());
    assert_eq!(game_state_label(&g).0, "TBD");
}

#[test]
fn standings_headings_open_each_group() {
    let mk = |conf: &str| nhl_tui::models::Standing {
        team_name: TeamName { default: "x".into() },
        team_abbrev: nhl_tui::models::TeamAbbrev { default: "X".into() },
        conference_name: conf.into(),
        division_name: "d".into(),
        games_played: 0, wins: 0, losses: 0, ot_losses: 0, points: 0,
        goal_for: 0, goal_against: 0, goal_differential: 0,
        streak_code: None, streak_count: None, division_sequence: None,
        conference_sequence: None, league_sequence: None, point_pctg_bits: None,
        l10_wins: None, l10_losses: None, l10_ot_losses: None, wildcard_sequence: None,
    };
    let (e1, e2, w1) = (mk("Eastern"), mk("Eastern"), mk("Western"));
    let rows = vec![&e1, &e2, &w1];
    let (opens, line) = standings_layout(StandingsFilter::Conference, &rows, 2);
    assert_eq!(opens, vec![true, false, true]);
    assert_eq!(line, 4, "two headings and two rows come before it");
    assert_eq!(standings_layout(StandingsFilter::Conference, &rows, 0).1, 1);
    assert_eq!(standings_layout(StandingsFilter::League, &rows, 2), (vec![false, false, false], 2));
    assert_eq!(standings_layout(StandingsFilter::League, &rows, 9).1, 0);
    assert_eq!(nhl_tui::view::period_total(&[2, 0, 1, 3]), 6);
}
