use nhl_tui::app::{Action, App, Fetched, Key, KeyCode};
use nhl_tui::calendar::CalendarDay;
use nhl_tui::leaders::{LeaderBoard, LeaderEntry};
use nhl_tui::models::{Game, PeriodDescriptor, ScoreResponse, StatLeader, TeamScore};
use nhl_tui::tabs::{LeaderCategory, StandingsFilter, Tab};

fn app() -> App {
    App::new(Some("tor".into()), 0)
}

fn game(id: u64, away: (&str, u32), home: (&str, u32)) -> Game {
    let team = |(abbrev, score): (&str, u32)| TeamScore {
        abbrev: abbrev.to_string(),
        score: Some(score),
    };
    Game {
        id,
        start_time_utc: None,
        game_state: "LIVE".into(),
        away_team: team(away),
        home_team: team(home),
        game_outcome: None,
        period: None,
        period_descriptor: None,
        clock: None,
    }
}

fn fetched(request_id: u64, scores: Result<ScoreResponse, String>) -> Fetched {
    Fetched {
        request_id,
        scores,
        standings: Err("x".into()),
        schedule: Err("x".into()),
        leaders: Err("x".into()),
        boxscore: None,
    }
}

#[test]
fn favorite_team_is_normalized_to_uppercase() {
    assert!(app().is_favorite_team("TOR"));
    assert!(!app().is_favorite_team("tor"));
}

#[test]
fn categories_cycle_in_both_directions() {
    let first = LeaderCategory::ALL[0];
    let last = LeaderCategory::ALL[LeaderCategory::ALL.len() - 1];
    assert_eq!(first.prev(), last);
    assert_eq!(last.next(), first);

    let mut c = first;
    for _ in 0..LeaderCategory::ALL.len() {
        c = c.next();
    }
    assert_eq!(c, first, "a full cycle returns to the start");
}

#[test]
fn standings_filters_cycle() {
    assert_eq!(StandingsFilter::Conference.prev(), StandingsFilter::League);
    assert_eq!(StandingsFilter::League.next(), StandingsFilter::Conference);
}

#[test]
fn period_labels_cover_overtime_and_shootout() {
    let pd = |number, period_type: Option<&str>| PeriodDescriptor {
        number,
        period_type: period_type.map(str::to_string),
    };
    assert_eq!(pd(1, Some("REG")).label(), "1st");
    assert_eq!(pd(4, Some("OT")).label(), "OT");
    assert_eq!(pd(5, Some("OT")).label(), "2OT");
    assert_eq!(pd(5, Some("SO")).label(), "SO");
}

#[test]
fn first_sighting_of_a_game_does_not_alert() {
    let mut app = app();
    app.scores = Some(ScoreResponse {
        games: vec![game(1, ("TOR", 3), ("MTL", 1))],
    });
    assert!(!app.check_score_alerts(), "opening mid-game must be silent");
}

#[test]
fn a_goal_by_a_tracked_game_alerts_once() {
    let mut app = app();
    app.scores = Some(ScoreResponse {
        games: vec![game(1, ("TOR", 3), ("MTL", 1))],
    });
    app.check_score_alerts();

    app.scores = Some(ScoreResponse {
        games: vec![game(1, ("TOR", 4), ("MTL", 1))],
    });
    assert!(app.check_score_alerts());
    assert!(!app.check_score_alerts(), "same score must not re-alert");
}

#[test]
fn games_without_the_favorite_team_never_alert() {
    let mut app = app();
    app.scores = Some(ScoreResponse {
        games: vec![game(1, ("BOS", 1), ("MTL", 1))],
    });
    app.check_score_alerts();
    app.scores = Some(ScoreResponse {
        games: vec![game(1, ("BOS", 2), ("MTL", 1))],
    });
    assert!(!app.check_score_alerts());
}

#[test]
fn selection_is_clamped_when_a_refresh_returns_fewer_games() {
    let mut app = app();
    app.scores = Some(ScoreResponse {
        games: (0..5).map(|i| game(i, ("TOR", 0), ("MTL", 0))).collect(),
    });
    app.scores_scroll = 4;

    app.scores = Some(ScoreResponse {
        games: vec![game(0, ("TOR", 0), ("MTL", 0))],
    });
    app.clamp_scroll();
    assert_eq!(app.scores_scroll, 0);
    assert!(app.selected_game().is_some());
}

#[test]
fn stale_results_are_discarded() {
    let mut app = app();
    app.request_id = 7;
    let stale = fetched(
        6,
        Ok(ScoreResponse {
            games: vec![game(1, ("TOR", 9), ("MTL", 0))],
        }),
    );
    app.apply_fetch(stale);
    assert!(app.scores.is_none(), "a superseded response must not land");
}

#[test]
fn changing_date_resets_selection_and_requests_a_refresh() {
    let mut app = app();
    app.scores_scroll = 3;
    let start = app.current_date;
    let action = app.handle_key(Key::plain(KeyCode::Char('l')));
    assert!(matches!(action, Some(Action::Refresh)));
    assert_eq!(app.current_date.days_from_ce, start.days_from_ce + 1);
    assert_eq!(app.scores_scroll, 0);
}

#[test]
fn a_day_forward_and_back_returns_to_the_same_day() {
    let mut app = app();
    let start = app.current_date;
    app.handle_key(Key::plain(KeyCode::Right));
    app.handle_key(Key::plain(KeyCode::Left));
    assert_eq!(app.current_date, start);
    app.active_tab = Tab::Schedule;
    app.handle_key(Key::plain(KeyCode::Char('h')));
    assert_eq!(app.current_date.days_from_ce, start.days_from_ce - 1);
}

#[test]
fn a_fresh_dashboard_opens_on_the_given_day_and_tab() {
    let day = CalendarDay::from_days_from_ce(739685).unwrap();
    let app = App::starting_on(Some("edm".into()), 2, day);
    assert_eq!(app.active_tab, Tab::Schedule);
    assert_eq!(app.favorite_team.as_deref(), Some("EDM"));
    assert_eq!(app.date_str(), "2026-03-10");
    assert!(app.shows_day(day));
    assert!(!app.loading);
    assert_eq!(app.request_id, 0);
    let out_of_range = App::starting_on(None, 9, day);
    assert_eq!(out_of_range.active_tab, Tab::Scores);
    assert!(out_of_range.favorite_team.is_none());
}

#[test]
fn day_numbers_outside_the_calendar_are_refused() {
    assert!(CalendarDay::from_days_from_ce(1).is_some());
    assert!(CalendarDay::from_days_from_ce(-95746129).is_some());
    assert!(CalendarDay::from_days_from_ce(95745399).is_some());
    assert!(CalendarDay::from_days_from_ce(-95746130).is_none());
    assert!(CalendarDay::from_days_from_ce(95745400).is_none());
}

#[test]
fn quit_keys_quit() {
    for key in [
        Key::plain(KeyCode::Char('q')),
        Key::plain(KeyCode::Esc),
        Key::with_ctrl(KeyCode::Char('c')),
    ] {
        let mut app = app();
        assert!(app.handle_key(key).is_none());
        assert!(app.should_quit);
    }
    let mut app = app();
    app.handle_key(Key::plain(KeyCode::Char('c')));
    assert!(!app.should_quit, "a plain c is not Ctrl-C");
}

#[test]
fn r_requests_a_refresh_and_digits_pick_tabs() {
    let mut app = app();
    assert!(matches!(app.handle_key(Key::plain(KeyCode::Char('r'))), Some(Action::Refresh)));
    app.handle_key(Key::plain(KeyCode::Char('4')));
    assert_eq!(app.active_tab, Tab::Leaders);
    app.handle_key(Key::plain(KeyCode::Char('2')));
    assert_eq!(app.active_tab, Tab::Standings);
    app.handle_key(Key::plain(KeyCode::Char('l')));
    assert_eq!(app.standings_filter, StandingsFilter::Division);
    app.handle_key(Key::plain(KeyCode::Char('h')));
    app.handle_key(Key::plain(KeyCode::Char('h')));
    assert_eq!(app.standings_filter, StandingsFilter::League);
}

#[test]
fn selection_moves_within_the_rows() {
    let mut app = app();
    app.scores = Some(ScoreResponse {
        games: (0..3).map(|i| game(i, ("TOR", 0), ("MTL", 0))).collect(),
    });
    app.handle_key(Key::plain(KeyCode::Char('k')));
    assert_eq!(app.scores_scroll, 0);
    app.handle_key(Key::plain(KeyCode::Down));
    app.handle_key(Key::plain(KeyCode::Char('j')));
    app.handle_key(Key::plain(KeyCode::Char('j')));
    assert_eq!(app.scores_scroll, 2, "down stops at the last row");
    app.handle_key(Key::plain(KeyCode::Home));
    assert_eq!(app.scores_scroll, 0);
    app.handle_key(Key::plain(KeyCode::Char('G')));
    assert_eq!(app.scores_scroll, 2);
    app.handle_key(Key::plain(KeyCode::Up));
    assert_eq!(app.scores_scroll, 1);
}

#[test]
fn enter_opens_the_selected_games_boxscore_and_esc_closes_it() {
    let mut app = app();
    assert!(app.handle_key(Key::plain(KeyCode::Enter)).is_none(), "no game to open");
    app.scores = Some(ScoreResponse {
        games: vec![game(11, ("TOR", 0), ("MTL", 0)), game(12, ("BOS", 0), ("NYR", 0))],
    });
    app.handle_key(Key::plain(KeyCode::Down));
    assert!(matches!(app.handle_key(Key::plain(KeyCode::Enter)), Some(Action::Refresh)));
    assert!(app.show_boxscore);
    assert_eq!(app.selected_game_id, Some(12));
    // Keys other than Esc, Enter and q do nothing while it is open.
    assert!(app.handle_key(Key::plain(KeyCode::Char('r'))).is_none());
    app.handle_key(Key::plain(KeyCode::Char('3')));
    assert_eq!(app.active_tab, Tab::Scores);
    app.handle_key(Key::plain(KeyCode::Esc));
    assert!(!app.show_boxscore);
    assert!(app.boxscore.is_none());
    assert!(!app.should_quit, "the Esc that closes the boxscore does not quit");
}

#[test]
fn leaders_are_read_for_the_selected_category() {
    let mut app = app();
    let leader = |last: &str| StatLeader {
        first_name: None,
        last_name: Some(nhl_tui::models::NameField { default: last.into() }),
        position: None,
        team_abbrev: None,
        value_bits: Some(138f64.to_bits()),
    };
    app.leaders = LeaderBoard {
        entries: vec![
            LeaderEntry { category: "goals".into(), leaders: vec![leader("A"), leader("B")] },
            LeaderEntry { category: "points".into(), leaders: vec![leader("C")] },
        ],
    };
    assert_eq!(app.current_leaders().len(), 1);
    app.active_tab = Tab::Leaders;
    app.leaders_scroll = 5;
    app.handle_key(Key::plain(KeyCode::Right));
    assert_eq!(app.leader_category, LeaderCategory::Goals);
    assert_eq!(app.leaders_scroll, 0);
    assert_eq!(app.current_leaders().len(), 2);
    app.handle_key(Key::plain(KeyCode::Right));
    assert!(app.current_leaders().is_empty());
}

#[test]
fn a_landed_fetch_stores_data_and_reports_the_first_error() {
    let mut app = app();
    let req = app.begin_fetch();
    assert_eq!(req.request_id, 1);
    assert!(app.loading);
    assert_eq!(req.boxscore_game, None);
    let alert = app.apply_fetch(fetched(
        1,
        Ok(ScoreResponse {
            games: vec![game(1, ("TOR", 2), ("MTL", 1))],
        }),
    ));
    assert!(!alert);
    assert!(!app.loading);
    assert!(app.last_updated.is_some());
    assert_eq!(app.scores.as_ref().unwrap().games.len(), 1);
    assert_eq!(app.error.as_deref(), Some("x"));

    // A failed part keeps what was there.
    app.begin_fetch();
    app.apply_fetch(fetched(2, Err("scores down".into())));
    assert_eq!(app.scores.as_ref().unwrap().games.len(), 1);
    assert_eq!(app.error.as_deref(), Some("scores down"));
}

#[test]
fn the_event_loop_reacts_to_each_action() {
    let mut app = app();
    let r = app.dispatch(Action::Refresh);
    assert_eq!(r.fetch.as_ref().map(|f| f.request_id), Some(1));
    assert!(!r.bell && r.follow_up.is_none() && !r.quit);
    let r = app.dispatch(Action::Key(Key::plain(KeyCode::Char('r'))));
    assert!(matches!(r.follow_up, Some(Action::Refresh)));
    assert!(r.fetch.is_none());
    let r = app.dispatch(Action::Fetched(Box::new(fetched(
        1,
        Ok(ScoreResponse { games: vec![game(7, ("TOR", 1), ("MTL", 0))] }),
    ))));
    assert!(!r.bell);
    app.dispatch(Action::Refresh);
    let r = app.dispatch(Action::Fetched(Box::new(fetched(
        2,
        Ok(ScoreResponse { games: vec![game(7, ("TOR", 2), ("MTL", 0))] }),
    ))));
    assert!(r.bell, "the favourite team scored");
    let r = app.dispatch(Action::Render);
    assert!(r.fetch.is_none() && !r.quit);
    let r = app.dispatch(Action::Key(Key::plain(KeyCode::Char('q'))));
    assert!(r.quit);
}

#[test]
fn an_open_boxscore_is_fetched_with_the_rest() {
    let mut app = app();
    app.scores = Some(ScoreResponse { games: vec![game(42, ("TOR", 0), ("MTL", 0))] });
    app.handle_key(Key::plain(KeyCode::Enter));
    let req = app.begin_fetch();
    assert_eq!(req.boxscore_game, Some(42));
    assert_eq!(req.date, app.date_str());
}

#[test]
fn q_and_ctrl_c_quit_with_the_boxscore_open() {
    for key in [Key::plain(KeyCode::Char('q')), Key::with_ctrl(KeyCode::Char('c'))] {
        let mut app = app();
        app.scores = Some(ScoreResponse { games: vec![game(5, ("TOR", 0), ("MTL", 0))] });
        app.handle_key(Key::plain(KeyCode::Enter));
        assert!(app.show_boxscore);
        assert!(app.handle_key(key).is_none());
        assert!(app.should_quit);
    }
}

#[test]
fn the_day_may_step_away_from_either_end_of_the_calendar() {
    let first = CalendarDay::from_days_from_ce(-95746129).unwrap();
    let mut app = App::starting_on(None, 0, first);
    assert!(matches!(app.handle_key(Key::plain(KeyCode::Right)), Some(Action::Refresh)));
    assert_eq!(app.current_date.days_from_ce, -95746128);
    let last = CalendarDay::from_days_from_ce(95745399).unwrap();
    let mut app = App::starting_on(None, 2, last);
    app.handle_key(Key::plain(KeyCode::Left));
    assert_eq!(app.current_date.days_from_ce, 95745398);
}

#[test]
fn a_superseded_fetch_is_dropped_whatever_it_holds() {
    let mut app = app();
    app.begin_fetch();
    app.begin_fetch();
    let stale = fetched(1, Ok(ScoreResponse { games: vec![game(1, ("TOR", u32::MAX), ("MTL", 1))] }));
    assert!(!app.apply_fetch(stale));
    assert!(app.scores.is_none());
    assert!(app.loading);
}

#[test]
fn a_leader_board_reads_what_was_last_listed_under_a_category() {
    let leader = |last: &str| StatLeader {
        first_name: None,
        last_name: Some(nhl_tui::models::NameField { default: last.into() }),
        position: None,
        team_abbrev: None,
        value_bits: None,
    };
    let mut board = LeaderBoard::new();
    board.insert("goals".into(), vec![leader("A")]);
    board.insert("points".into(), vec![leader("B"), leader("C")]);
    board.insert("goals".into(), vec![leader("D"), leader("E"), leader("F")]);
    assert_eq!(board.entries.len(), 2);
    assert_eq!(board.get("goals").len(), 3);
    assert_eq!(board.get("points").len(), 2);
    assert!(board.get("toi").is_empty());
}

#[test]
fn only_a_refresh_moves_the_request_counter() {
    let mut app = app();
    app.handle_key(Key::plain(KeyCode::Down));
    app.handle_key(Key::plain(KeyCode::Char('2')));
    assert_eq!(app.request_id, 0);
    assert_eq!(app.begin_fetch().request_id, 1);
    app.apply_fetch(fetched(1, Err("down".into())));
    assert_eq!(app.request_id, 1);
    assert_eq!(app.begin_fetch().request_id, 2);
    // The first fetch's late result is now dropped.
    assert!(!app.apply_fetch(fetched(1, Err("late".into()))));
    assert_eq!(app.error.as_deref(), Some("down"));
}
