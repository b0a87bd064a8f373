//! The dashboard's state and how keys and fetched data change it.

use std::collections::HashMap;

use vstd::prelude::*;

use crate::calendar::{
    add_days, format_iso_date, iso_date, local_clock_now, local_today, CalendarDay, ClockTime,
    MAX_DAY, MIN_DAY,
};
use crate::leaders::{leaders_under, LeaderBoard};
use crate::models::{
    BoxscoreResponse, Game, GameDay, ScheduleResponse, ScoreResponse, Standing,
    StandingsResponse, StatLeader,
};
use crate::standings::{is_ranking, standings_order};
use crate::tabs::{
    category_key, category_step, filter_step, tab_at, LeaderCategory, StandingsFilter, Tab,
};
use crate::text::{ascii_upper, text_is, to_uppercase_text, uppercase};

verus! {

broadcast use vstd::std_specs::hash::group_hash_axioms;

/// The keys the dashboard tells apart.
#[derive(Debug, Clone, Copy, PartialEq, Eq, Structural)]
pub enum KeyCode {
    Char(char),
    Esc,
    Enter,
    Left,
    Right,
    Up,
    Down,
    Home,
    End,
    /// Any other key; it does nothing.
    Other,
}

/// A key press: the key and whether Control was held.
#[derive(Debug, Clone, Copy, PartialEq, Eq, Structural)]
pub struct Key {
    pub code: KeyCode,
    pub ctrl: bool,
}

impl Key {
    /// A press of `code` with no modifier held.
    pub fn plain(code: KeyCode) -> (k: Key)
        ensures
            k == (Key { code, ctrl: false }),
    {
        Key { code, ctrl: false }
    }

    /// A press of `code` with Control held.
    pub fn with_ctrl(code: KeyCode) -> (k: Key)
        ensures
            k == (Key { code, ctrl: true }),
    {
        Key { code, ctrl: true }
    }
}

/// What the event loop is asked to do next.
#[derive(Debug)]
pub enum Action {
    /// Redraw the screen.
    Render,
    /// Kick off a background fetch of every panel's data.
    Refresh,
    /// A background fetch finished. Boxed: the payload is large and this
    /// variant would otherwise dominate the size of every `Action`.
    Fetched(Box<Fetched>),
    Key(Key),
}

/// One round of network results, handed back to the app from a background task.
#[derive(Debug)]
pub struct Fetched {
    /// Identifies the request that produced this. Results from a superseded
    /// request (the user changed the date mid-flight) are dropped.
    pub request_id: u64,
    pub scores: Result<ScoreResponse, String>,
    pub standings: Result<StandingsResponse, String>,
    pub schedule: Result<ScheduleResponse, String>,
    pub leaders: Result<LeaderBoard, String>,
    pub boxscore: Option<Result<BoxscoreResponse, String>>,
}

/// What a background fetch is to ask the API for.
#[derive(Debug, Clone, PartialEq)]
pub struct FetchRequest {
    pub request_id: u64,
    /// The day shown, as "YYYY-MM-DD".
    pub date: String,
    /// The game whose boxscore is open, if one is.
    pub boxscore_game: Option<u64>,
}

pub struct App {
    pub should_quit: bool,
    pub active_tab: Tab,
    pub current_date: CalendarDay,
    pub favorite_team: Option<String>,
    pub scores: Option<ScoreResponse>,
    pub standings: Option<StandingsResponse>,
    pub schedule: Option<ScheduleResponse>,
    pub leaders: LeaderBoard,
    pub boxscore: Option<BoxscoreResponse>,
    pub standings_filter: StandingsFilter,
    pub leader_category: LeaderCategory,
    pub scores_scroll: usize,
    pub standings_scroll: usize,
    pub schedule_scroll: usize,
    pub leaders_scroll: usize,
    pub show_boxscore: bool,
    pub selected_game_id: Option<u64>,
    pub loading: bool,
    /// Local time of the last fetch that landed.
    pub last_updated: Option<ClockTime>,
    /// Most recent error, shown in the status bar. Printing to stderr would
    /// corrupt the alternate screen we are drawing on.
    pub error: Option<String>,
    /// Last seen combined score per game, used to detect that a favourite
    /// team's game changed while we were away.
    pub last_scores: HashMap<u64, u32>,
    /// Identifies the most recent fetch; only its results are applied.
    pub request_id: u64,
}

// ---------------------------------------------------------------------------
// The model
// ---------------------------------------------------------------------------

pub open spec fn games_len(s: Option<ScoreResponse>) -> nat {
    match s {
        Some(r) => r.games@.len(),
        None => 0,
    }
}

pub open spec fn standings_len(s: Option<StandingsResponse>) -> nat {
    match s {
        Some(r) => r.standings@.len(),
        None => 0,
    }
}

/// Number of games over the days of a week.
pub open spec fn week_games(days: Seq<GameDay>) -> nat
    decreases days.len(),
{
    if days.len() == 0 {
        0
    } else {
        week_games(days.drop_last()) + days.last().games@.len()
    }
}

pub open spec fn schedule_len(s: Option<ScheduleResponse>) -> nat {
    match s {
        Some(r) => week_games(r.game_week@),
        None => 0,
    }
}

pub open spec fn score_or_zero(s: Option<u32>) -> int {
    match s {
        Some(v) => v as int,
        None => 0,
    }
}

/// Combined score of a game, a missing score counting as zero.
pub open spec fn game_total(g: Game) -> int {
    score_or_zero(g.home_team.score) + score_or_zero(g.away_team.score)
}

/// Whether team `fav` plays in game `g`.
pub open spec fn involves(g: Game, fav: Seq<char>) -> bool {
    g.home_team.abbrev@ == fav || g.away_team.abbrev@ == fav
}

/// The combined score of every game the favourite team plays fits in a `u32`.
pub open spec fn scores_fit(s: Option<ScoreResponse>, fav: Option<String>) -> bool {
    match (s, fav) {
        (Some(r), Some(f)) => forall|i: int|
            0 <= i < r.games@.len() && involves(#[trigger] r.games@[i], f@) ==> game_total(
                r.games@[i],
            ) <= u32::MAX,
        _ => true,
    }
}

/// The number of games in the week shown fits in a `usize`.
pub open spec fn schedule_fits(s: Option<ScheduleResponse>) -> bool {
    schedule_len(s) <= usize::MAX
}

impl App {
    /// The state the dashboard keeps: a representable day, counts that fit
    /// the integers they are computed in, and leaders with no category twice.
    pub open spec fn wf(self) -> bool {
        &&& self.current_date.wf()
        &&& scores_fit(self.scores, self.favorite_team)
        &&& schedule_fits(self.schedule)
        &&& self.leaders.wf()
    }

    /// The leaders of the selected category.
    pub open spec fn leader_rows(self) -> Seq<StatLeader> {
        leaders_under(self.leaders.entries@, category_key(self.leader_category))
    }

    /// Number of selectable rows on tab `t`.
    pub open spec fn rows_on(self, t: Tab) -> nat {
        match t {
            Tab::Scores => games_len(self.scores),
            Tab::Standings => standings_len(self.standings),
            Tab::Schedule => schedule_len(self.schedule),
            Tab::Leaders => self.leader_rows().len(),
        }
    }

    /// The selected row on tab `t`.
    pub open spec fn scroll_on(self, t: Tab) -> usize {
        match t {
            Tab::Scores => self.scores_scroll,
            Tab::Standings => self.standings_scroll,
            Tab::Schedule => self.schedule_scroll,
            Tab::Leaders => self.leaders_scroll,
        }
    }

    /// The state with tab `t`'s selection moved to `v`.
    pub open spec fn with_scroll(self, t: Tab, v: usize) -> App {
        match t {
            Tab::Scores => App { scores_scroll: v, ..self },
            Tab::Standings => App { standings_scroll: v, ..self },
            Tab::Schedule => App { schedule_scroll: v, ..self },
            Tab::Leaders => App { leaders_scroll: v, ..self },
        }
    }

    /// The game under the cursor on the scores tab.
    pub open spec fn selected_game_model(self) -> Option<Game> {
        match self.scores {
            Some(r) => if self.scores_scroll < r.games@.len() {
                Some(r.games@[self.scores_scroll as int])
            } else {
                None
            },
            None => None,
        }
    }
}


/// Esc and Enter close the boxscore overlay.
pub open spec fn closes_overlay(k: Key) -> bool {
    k.code == KeyCode::Esc || k.code == KeyCode::Enter
}

/// `q` and Ctrl-C quit in every state, the boxscore open or not.
pub open spec fn quits_anywhere(k: Key) -> bool {
    (k.code == KeyCode::Char('c') && k.ctrl) || k.code == KeyCode::Char('q')
}

/// `q`, Esc and Ctrl-C quit; Esc only once the boxscore is closed.
pub open spec fn is_quit_key(k: Key) -> bool {
    quits_anywhere(k) || k.code == KeyCode::Esc
}

/// `1` to `4` pick a tab.
pub open spec fn is_tab_key(k: Key) -> bool {
    k.code matches KeyCode::Char(c) && '1' <= c <= '4'
}

/// The tab position a digit key picks.
pub open spec fn tab_key_index(k: Key) -> int {
    match k.code {
        KeyCode::Char(c) => c as int - '1' as int,
        _ => 0,
    }
}

pub open spec fn is_back_key(k: Key) -> bool {
    k.code == KeyCode::Left || k.code == KeyCode::Char('h')
}

pub open spec fn is_forward_key(k: Key) -> bool {
    k.code == KeyCode::Right || k.code == KeyCode::Char('l')
}

pub open spec fn is_up_key(k: Key) -> bool {
    k.code == KeyCode::Up || k.code == KeyCode::Char('k')
}

pub open spec fn is_down_key(k: Key) -> bool {
    k.code == KeyCode::Down || k.code == KeyCode::Char('j')
}

pub open spec fn is_home_key(k: Key) -> bool {
    k.code == KeyCode::Home || k.code == KeyCode::Char('g')
}

pub open spec fn is_end_key(k: Key) -> bool {
    k.code == KeyCode::End || k.code == KeyCode::Char('G')
}

/// Tabs on which left and right change the day rather than a filter.
pub open spec fn is_dated_tab(t: Tab) -> bool {
    t == Tab::Scores || t == Tab::Schedule
}

/// The day `delta` days from `d`.
pub open spec fn shifted_day(d: CalendarDay, delta: int) -> CalendarDay {
    CalendarDay { days_from_ce: (d.days_from_ce + delta) as i32 }
}

/// Moving to another day starts at the top of the lists.
pub open spec fn moved_to_day(a: App, delta: int) -> App {
    App {
        current_date: shifted_day(a.current_date, delta),
        scores_scroll: 0,
        schedule_scroll: 0,
        ..a
    }
}

/// The state after key `k`, and whether a refresh is requested.
pub open spec fn key_transition(a: App, k: Key) -> (App, bool) {
    let t = a.active_tab;
    let scroll = a.scroll_on(t);
    let rows = a.rows_on(t);
    if quits_anywhere(k) {
        (App { should_quit: true, ..a }, false)
    } else if a.show_boxscore {
        if closes_overlay(k) {
            (App { show_boxscore: false, boxscore: None, ..a }, false)
        } else {
            (a, false)
        }
    } else if is_quit_key(k) {
        (App { should_quit: true, ..a }, false)
    } else if k.code == KeyCode::Char('r') {
        (a, true)
    } else if is_tab_key(k) {
        (App { active_tab: tab_at(tab_key_index(k)), ..a }, false)
    } else if is_back_key(k) {
        if is_dated_tab(t) {
            (moved_to_day(a, -1), true)
        } else if t == Tab::Standings {
            (App { standings_filter: filter_step(a.standings_filter, -1), ..a }, false)
        } else {
            (
                App { leader_category: category_step(a.leader_category, -1), leaders_scroll: 0, ..a },
                false,
            )
        }
    } else if is_forward_key(k) {
        if is_dated_tab(t) {
            (moved_to_day(a, 1), true)
        } else if t == Tab::Standings {
            (App { standings_filter: filter_step(a.standings_filter, 1), ..a }, false)
        } else {
            (
                App { leader_category: category_step(a.leader_category, 1), leaders_scroll: 0, ..a },
                false,
            )
        }
    } else if is_up_key(k) {
        (a.with_scroll(t, if scroll > 0 { (scroll - 1) as usize } else { 0 }), false)
    } else if is_down_key(k) {
        (if scroll + 1 < rows { a.with_scroll(t, (scroll + 1) as usize) } else { a }, false)
    } else if is_home_key(k) {
        (a.with_scroll(t, 0), false)
    } else if is_end_key(k) {
        (a.with_scroll(t, if rows > 0 { (rows - 1) as usize } else { 0 }), false)
    } else if k.code == KeyCode::Enter && t == Tab::Scores && a.selected_game_model() is Some {
        (
            App {
                selected_game_id: Some(a.selected_game_model()->0.id),
                show_boxscore: true,
                ..a
            },
            true,
        )
    } else {
        (a, false)
    }
}

/// A key that changes the day keeps it within the calendar chrono represents:
/// back needs a day before the shown one, forward a day after it.
pub open spec fn key_keeps_day_in_range(a: App, k: Key) -> bool {
    &&& (!a.show_boxscore && is_dated_tab(a.active_tab) && is_back_key(k)) ==> MIN_DAY
        < a.current_date.days_from_ce
    &&& (!a.show_boxscore && is_dated_tab(a.active_tab) && is_forward_key(k))
        ==> a.current_date.days_from_ce < MAX_DAY
}

proof fn lemma_week_games_prefix(days: Seq<GameDay>, i: int)
    requires
        0 <= i <= days.len(),
    ensures
        week_games(days.take(i)) <= week_games(days),
    decreases days.len() - i,
{
    if i < days.len() {
        lemma_week_games_prefix(days, i + 1);
        assert(days.take(i + 1).drop_last() =~= days.take(i));
    } else {
        assert(days.take(i) =~= days);
    }
}

/// Number of games over the days of a week.
fn count_week_games(days: &Vec<GameDay>) -> (n: usize)
    requires
        week_games(days@) <= usize::MAX,
    ensures
        n == week_games(days@),
{
    let mut total: usize = 0;
    let mut i: usize = 0;
    assert(days@.take(0) =~= Seq::<GameDay>::empty());
    while i < days.len()
        invariant
            i <= days@.len(),
            total == week_games(days@.take(i as int)),
            week_games(days@) <= usize::MAX,
        decreases days@.len() - i,
    {
        assert(days@.take(i + 1).drop_last() =~= days@.take(i as int));
        proof {
            lemma_week_games_prefix(days@, i + 1);
        }
        total = total + days[i].games.len();
        i = i + 1;
    }
    assert(days@.take(days@.len() as int) =~= days@);
    total
}

impl App {
    /// Number of selectable rows on the active tab.
    pub fn row_count(&self) -> (n: usize)
        requires
            self.wf(),
        ensures
            n == self.rows_on(self.active_tab),
    {
        match self.active_tab {
            Tab::Scores => match &self.scores {
                Some(s) => s.games.len(),
                None => 0,
            },
            // Sorting keeps every row, so the filtered table is as long as
            // the standings.
            Tab::Standings => match &self.standings {
                Some(s) => s.standings.len(),
                None => 0,
            },
            Tab::Schedule => match &self.schedule {
                Some(s) => count_week_games(&s.game_week),
                None => 0,
            },
            Tab::Leaders => self.current_leaders().len(),
        }
    }

    /// The selected row on the active tab.
    pub fn scroll(&self) -> (v: usize)
        ensures
            v == self.scroll_on(self.active_tab),
    {
        match self.active_tab {
            Tab::Scores => self.scores_scroll,
            Tab::Standings => self.standings_scroll,
            Tab::Schedule => self.schedule_scroll,
            Tab::Leaders => self.leaders_scroll,
        }
    }

    /// Moves the active tab's selection to `v`.
    pub fn set_scroll(&mut self, v: usize)
        ensures
            *final(self) == old(self).with_scroll(old(self).active_tab, v),
    {
        match self.active_tab {
            Tab::Scores => self.scores_scroll = v,
            Tab::Standings => self.standings_scroll = v,
            Tab::Schedule => self.schedule_scroll = v,
            Tab::Leaders => self.leaders_scroll = v,
        }
    }

    /// Returns the scores and schedule lists to their first row.
    pub fn reset_scroll(&mut self)
        ensures
            *final(self) == (App { scores_scroll: 0, schedule_scroll: 0, ..*old(self) }),
    {
        self.scores_scroll = 0;
        self.schedule_scroll = 0;
    }

    /// The game under the cursor on the scores tab.
    pub fn selected_game(&self) -> (g: Option<&Game>)
        ensures
            g is Some <==> self.selected_game_model() is Some,
            g is Some ==> *g->0 == self.selected_game_model()->0,
    {
        match &self.scores {
            Some(s) => if self.scores_scroll < s.games.len() {
                Some(&s.games[self.scores_scroll])
            } else {
                None
            },
            None => None,
        }
    }

    /// The leaders of the selected category.
    pub fn current_leaders(&self) -> (r: &[StatLeader])
        ensures
            r@ == self.leader_rows(),
    {
        self.leaders.get(self.leader_category.api_key())
    }

    /// Whether `abbrev` is the favourite team.
    pub fn is_favorite_team(&self, abbrev: &str) -> (b: bool)
        ensures
            b == (self.favorite_team is Some && self.favorite_team->0@ == abbrev@),
    {
        match &self.favorite_team {
            Some(f) => text_is(f.as_str(), abbrev),
            None => false,
        }
    }

    /// Acts on a key press. Returns the action it calls for, if any: a
    /// refresh when the day changes, when `r` is pressed, or when a game's
    /// boxscore is opened.
    pub fn handle_key(&mut self, key: Key) -> (r: Option<Action>)
        requires
            old(self).wf(),
            key_keeps_day_in_range(*old(self), key),
        ensures
            *final(self) == key_transition(*old(self), key).0,
            r is Some <==> key_transition(*old(self), key).1,
            r is Some ==> r->0 is Refresh,
            final(self).wf(),
    {
        let code = key.code;
        // q and Ctrl-C quit whatever is on screen.
        if (code == KeyCode::Char('c') && key.ctrl) || code == KeyCode::Char('q') {
            self.should_quit = true;
            return None;
        }
        if self.show_boxscore {
            if code == KeyCode::Esc || code == KeyCode::Enter {
                self.show_boxscore = false;
                self.boxscore = None;
            }
            return None;
        }
        if code == KeyCode::Esc {
            self.should_quit = true;
            return None;
        }
        if code == KeyCode::Char('r') {
            return Some(Action::Refresh);
        }
        if let KeyCode::Char(c) = code {
            if '1' <= c && c <= '4' {
                let i: usize = if c == '1' {
                    0
                } else if c == '2' {
                    1
                } else if c == '3' {
                    2
                } else {
                    3
                };
                self.active_tab = Tab::from_index(i);
                return None;
            }
        }
        if code == KeyCode::Left || code == KeyCode::Char('h') {
            match self.active_tab {
                Tab::Scores | Tab::Schedule => {
                    let day = add_days(self.current_date, -1);
                    self.current_date = day.unwrap();
                    self.reset_scroll();
                    return Some(Action::Refresh);
                },
                Tab::Standings => {
                    self.standings_filter = self.standings_filter.prev();
                },
                Tab::Leaders => {
                    self.leader_category = self.leader_category.prev();
                    self.leaders_scroll = 0;
                },
            }
            return None;
        }
        if code == KeyCode::Right || code == KeyCode::Char('l') {
            match self.active_tab {
                Tab::Scores | Tab::Schedule => {
                    let day = add_days(self.current_date, 1);
                    self.current_date = day.unwrap();
                    self.reset_scroll();
                    return Some(Action::Refresh);
                },
                Tab::Standings => {
                    self.standings_filter = self.standings_filter.next();
                },
                Tab::Leaders => {
                    self.leader_category = self.leader_category.next();
                    self.leaders_scroll = 0;
                },
            }
            return None;
        }
        if code == KeyCode::Up || code == KeyCode::Char('k') {
            let scroll = self.scroll();
            self.set_scroll(scroll.saturating_sub(1));
            return None;
        }
        if code == KeyCode::Down || code == KeyCode::Char('j') {
            let max = self.row_count();
            let scroll = self.scroll();
            if max > 0 && scroll < max - 1 {
                self.set_scroll(scroll + 1);
            }
            return None;
        }
        if code == KeyCode::Home || code == KeyCode::Char('g') {
            self.set_scroll(0);
            return None;
        }
        if code == KeyCode::End || code == KeyCode::Char('G') {
            let last = self.row_count().saturating_sub(1);
            self.set_scroll(last);
            return None;
        }
        if code == KeyCode::Enter && self.active_tab == Tab::Scores {
            let id = match self.selected_game() {
                Some(game) => Some(game.id),
                None => None,
            };
            if let Some(id) = id {
                self.selected_game_id = Some(id);
                self.show_boxscore = true;
                // Fetch the boxscore now rather than waiting out the
                // refresh interval.
                return Some(Action::Refresh);
            }
        }
        None
    }
}

/// A selection moved back onto the last row when the list got shorter.
pub open spec fn clamped(s: usize, len: nat) -> usize {
    if len == 0 {
        0
    } else if s > len - 1 {
        (len - 1) as usize
    } else {
        s
    }
}

/// Every tab's selection moved back onto a row that exists.
pub open spec fn clamp_all(a: App) -> App {
    App {
        scores_scroll: clamped(a.scores_scroll, games_len(a.scores)),
        standings_scroll: clamped(a.standings_scroll, standings_len(a.standings)),
        schedule_scroll: clamped(a.schedule_scroll, schedule_len(a.schedule)),
        leaders_scroll: clamped(a.leaders_scroll, a.leader_rows().len()),
        ..a
    }
}

/// Scanning `games` for the favourite team's: whether one of them has a
/// higher combined score than the `last` one seen for it, and the combined
/// score of each of them (a game listed twice keeps its later entry).
pub open spec fn alert_scan(games: Seq<Game>, fav: Seq<char>, last: Map<u64, u32>) -> (bool, Map<
    u64,
    u32,
>)
    decreases games.len(),
{
    if games.len() == 0 {
        (false, Map::empty())
    } else {
        let (alert, seen) = alert_scan(games.drop_last(), fav, last);
        let g = games.last();
        if involves(g, fav) {
            (
                alert || (last.contains_key(g.id) && game_total(g) > last[g.id]),
                seen.insert(g.id, game_total(g) as u32),
            )
        } else {
            (alert, seen)
        }
    }
}

/// Whether the favourite team's game has scored since the scores last
/// checked, and the scores remembered afterwards. Without scores or without
/// a favourite team nothing alerts and nothing is remembered anew.
pub open spec fn score_alert(a: App) -> (bool, Map<u64, u32>) {
    match (a.scores, a.favorite_team) {
        (Some(r), Some(f)) => alert_scan(r.games@, f@, a.last_scores@),
        _ => (false, a.last_scores@),
    }
}

/// The first error of a fetch, in the order scores, standings, schedule,
/// leaders, boxscore.
pub open spec fn first_error(f: Fetched) -> Option<String> {
    if f.scores is Err {
        Some(f.scores->Err_0)
    } else if f.standings is Err {
        Some(f.standings->Err_0)
    } else if f.schedule is Err {
        Some(f.schedule->Err_0)
    } else if f.leaders is Err {
        Some(f.leaders->Err_0)
    } else if f.boxscore is Some && f.boxscore->0 is Err {
        Some(f.boxscore->0->Err_0)
    } else {
        None
    }
}

/// The state with the fetch's successful parts stored (a failed part keeps
/// what was there), its first error shown and its arrival time noted.
pub open spec fn absorb(a: App, f: Fetched, now: ClockTime) -> App {
    App {
        loading: false,
        last_updated: Some(now),
        scores: match f.scores {
            Ok(v) => Some(v),
            Err(_) => a.scores,
        },
        standings: match f.standings {
            Ok(v) => Some(v),
            Err(_) => a.standings,
        },
        schedule: match f.schedule {
            Ok(v) => Some(v),
            Err(_) => a.schedule,
        },
        leaders: match f.leaders {
            Ok(v) => v,
            Err(_) => a.leaders,
        },
        boxscore: match f.boxscore {
            Some(Ok(b)) => Some(b),
            _ => a.boxscore,
        },
        error: first_error(f),
        ..a
    }
}

/// The fetched scores and schedule keep the counts within their integers,
/// and the fetched leaders name no category twice.
pub open spec fn fetched_fits(f: Fetched, fav: Option<String>) -> bool {
    &&& f.scores is Ok ==> scores_fit(Some(f.scores->Ok_0), fav)
    &&& f.schedule is Ok ==> schedule_fits(Some(f.schedule->Ok_0))
    &&& f.leaders is Ok ==> f.leaders->Ok_0.wf()
}

/// A fetch that lands: its data stored and every selection kept on a row
/// that still exists.
pub open spec fn landed(a: App, f: Fetched, now: ClockTime) -> App {
    clamp_all(absorb(a, f, now))
}

impl App {
    /// Keeps selections pointing at a row that still exists after a refresh
    /// returns a different number of games.
    pub fn clamp_scroll(&mut self)
        requires
            old(self).wf(),
        ensures
            *final(self) == clamp_all(*old(self)),
    {
        // Lengths are read up front: each getter borrows `self` immutably.
        let scores_len = match &self.scores {
            Some(s) => s.games.len(),
            None => 0,
        };
        let standings_len = match &self.standings {
            Some(s) => s.standings.len(),
            None => 0,
        };
        let schedule_len = match &self.schedule {
            Some(s) => count_week_games(&s.game_week),
            None => 0,
        };
        let leaders_len = self.current_leaders().len();
        self.scores_scroll = clamp_to(self.scores_scroll, scores_len);
        self.standings_scroll = clamp_to(self.standings_scroll, standings_len);
        self.schedule_scroll = clamp_to(self.schedule_scroll, schedule_len);
        self.leaders_scroll = clamp_to(self.leaders_scroll, leaders_len);
    }

    /// True when a favourite team's game has scored since the last refresh.
    ///
    /// A game we have not seen before never alerts, so opening the app during
    /// a 3-1 game is silent; only a change from a known score rings.
    pub fn check_score_alerts(&mut self) -> (alert: bool)
        requires
            old(self).wf(),
        ensures
            alert == score_alert(*old(self)).0,
            final(self).last_scores@ == score_alert(*old(self)).1,
            *final(self) == (App { last_scores: final(self).last_scores, ..*old(self) }),
    {
        let (scores, fav) = match (&self.scores, &self.favorite_team) {
            (Some(scores), Some(fav)) => (scores, fav),
            _ => return false,
        };
        let mut alert = false;
        let mut seen: HashMap<u64, u32> = HashMap::new();
        let n = scores.games.len();
        let mut i: usize = 0;
        assert(scores.games@.take(0) =~= Seq::<Game>::empty());
        while i < n
            invariant
                n == scores.games@.len(),
                i <= n,
                forall|j: int|
                    0 <= j < n && involves(#[trigger] scores.games@[j], fav@) ==> game_total(
                        scores.games@[j],
                    ) <= u32::MAX,
                (alert, seen@) == alert_scan(scores.games@.take(i as int), fav@, self.last_scores@),
            decreases n - i,
        {
            let game = &scores.games[i];
            assert(scores.games@.take(i + 1).drop_last() =~= scores.games@.take(i as int));
            assert(scores.games@.take(i + 1).last() == scores.games@[i as int]);
            let home = text_is(game.home_team.abbrev.as_str(), fav.as_str());
            let away = text_is(game.away_team.abbrev.as_str(), fav.as_str());
            if home || away {
                assert(involves(scores.games@[i as int], fav@));
                let total: u32 = score_value(game.home_team.score) + score_value(
                    game.away_team.score,
                );
                match self.last_scores.get(&game.id) {
                    Some(prev) => {
                        if total > *prev {
                            alert = true;
                        }
                    },
                    None => {},
                }
                seen.insert(game.id, total);
            }
            i = i + 1;
        }
        assert(scores.games@.take(n as int) =~= scores.games@);
        self.last_scores = seen;
        alert
    }

    /// Folds a completed fetch into the app, its arrival noted as `now`.
    /// Returns true if the favourite team scored. A fetch superseded by a
    /// later request changes nothing.
    pub fn apply_fetch_at(&mut self, fetched: Fetched, now: ClockTime) -> (alert: bool)
        requires
            old(self).wf(),
            fetched.request_id == old(self).request_id ==> fetched_fits(
                fetched,
                old(self).favorite_team,
            ),
        ensures
            fetched.request_id != old(self).request_id ==> *final(self) == *old(self) && !alert,
            fetched.request_id == old(self).request_id ==> {
                let landed = landed(*old(self), fetched, now);
                &&& *final(self) == (App { last_scores: final(self).last_scores, ..landed })
                &&& final(self).last_scores@ == score_alert(landed).1
                &&& alert == score_alert(landed).0
            },
            final(self).wf(),
    {
        if fetched.request_id != self.request_id {
            return false;  // Superseded by a later request.
        }
        self.loading = false;
        self.last_updated = Some(now);

        let mut error: Option<String> = None;
        match fetched.scores {
            Ok(value) => self.scores = Some(value),
            Err(e) => if error.is_none() {
                error = Some(e);
            },
        }
        match fetched.standings {
            Ok(value) => self.standings = Some(value),
            Err(e) => if error.is_none() {
                error = Some(e);
            },
        }
        match fetched.schedule {
            Ok(value) => self.schedule = Some(value),
            Err(e) => if error.is_none() {
                error = Some(e);
            },
        }
        match fetched.leaders {
            Ok(leaders) => self.leaders = leaders,
            Err(e) => if error.is_none() {
                error = Some(e);
            },
        }
        match fetched.boxscore {
            Some(Ok(boxscore)) => self.boxscore = Some(boxscore),
            Some(Err(e)) => if error.is_none() {
                error = Some(e);
            },
            None => {},
        }
        self.error = error;
        self.clamp_scroll();
        self.check_score_alerts()
    }

    /// Folds a completed fetch into the app, noting the local time it
    /// landed. Returns true if the favourite team scored.
    pub fn apply_fetch(&mut self, fetched: Fetched) -> (alert: bool)
        requires
            old(self).wf(),
            fetched.request_id == old(self).request_id ==> fetched_fits(
                fetched,
                old(self).favorite_team,
            ),
        ensures
            fetched.request_id != old(self).request_id ==> *final(self) == *old(self) && !alert,
            fetched.request_id == old(self).request_id ==> {
                &&& final(self).last_updated is Some
                &&& final(self).last_updated->0.wf()
                &&& {
                    let landed = landed(*old(self), fetched, final(self).last_updated->0);
                    &&& *final(self) == (App { last_scores: final(self).last_scores, ..landed })
                    &&& final(self).last_scores@ == score_alert(landed).1
                    &&& alert == score_alert(landed).0
                }
            },
            final(self).wf(),
    {
        if fetched.request_id != self.request_id {
            return false;  // Superseded by a later request.
        }
        let now = local_clock_now();
        self.apply_fetch_at(fetched, now)
    }
}

fn clamp_to(s: usize, len: usize) -> (r: usize)
    ensures
        r == clamped(s, len as nat),
{
    let last = len.saturating_sub(1);
    if s < last {
        s
    } else {
        last
    }
}

fn score_value(s: Option<u32>) -> (v: u32)
    ensures
        v == score_or_zero(s),
{
    match s {
        Some(v) => v,
        None => 0,
    }
}

/// A freshly opened dashboard: on the given day and tab, with the favourite
/// team upper-cased, nothing loaded and nothing selected.
pub open spec fn is_fresh(a: App, favorite_team: Option<String>, start_tab: usize, today: CalendarDay) -> bool {
    &&& !a.should_quit
    &&& a.active_tab == tab_at(start_tab as int)
    &&& a.current_date == today
    &&& (a.favorite_team is Some <==> favorite_team is Some)
    &&& a.favorite_team is Some ==> a.favorite_team->0@ == uppercase(favorite_team->0@)
    &&& a.favorite_team is Some && vstd::utf8::is_ascii_chars(favorite_team->0@)
        ==> a.favorite_team->0@ == favorite_team->0@.map_values(|c: char| ascii_upper(c))
    &&& a.scores is None
    &&& a.standings is None
    &&& a.schedule is None
    &&& a.leaders.entries@.len() == 0
    &&& a.boxscore is None
    &&& a.standings_filter == StandingsFilter::Conference
    &&& a.leader_category == LeaderCategory::Points
    &&& a.scores_scroll == 0
    &&& a.standings_scroll == 0
    &&& a.schedule_scroll == 0
    &&& a.leaders_scroll == 0
    &&& !a.show_boxscore
    &&& a.selected_game_id is None
    &&& !a.loading
    &&& a.last_updated is None
    &&& a.error is None
    &&& a.last_scores@ == Map::<u64, u32>::empty()
    &&& a.request_id == 0
}

/// What the event loop does after an action.
#[derive(Debug)]
pub struct Reaction {
    /// Start a background fetch for this request.
    pub fetch: Option<FetchRequest>,
    /// Ring the terminal bell: the favourite team scored.
    pub bell: bool,
    /// An action to queue next.
    pub follow_up: Option<Action>,
    /// Leave the event loop.
    pub quit: bool,
}

/// The actions the dashboard can take in its present state: counts stay
/// within their integers and the day within the calendar.
pub open spec fn dispatch_allowed(a: App, action: Action) -> bool {
    &&& a.wf()
    &&& match action {
        Action::Render => true,
        Action::Refresh => a.request_id < u64::MAX,
        Action::Fetched(f) => f.request_id == a.request_id ==> fetched_fits(*f, a.favorite_team),
        Action::Key(k) => key_keeps_day_in_range(a, k),
    }
}

/// The state once a fetch has been asked for.
pub open spec fn fetch_started(a: App) -> App {
    App { request_id: (a.request_id + 1) as u64, loading: true, ..a }
}

impl App {
    /// A dashboard opened on `today`, showing tab `start_tab` (the scores tab
    /// when out of range) and marking `favorite_team`, upper-cased.
    pub fn starting_on(favorite_team: Option<String>, start_tab: usize, today: CalendarDay) -> (a: App)
        requires
            today.wf(),
        ensures
            is_fresh(a, favorite_team, start_tab, today),
            a.wf(),
    {
        let favorite_team = match favorite_team {
            Some(t) => Some(to_uppercase_text(t.as_str())),
            None => None,
        };
        App {
            should_quit: false,
            active_tab: Tab::from_index(start_tab),
            current_date: today,
            favorite_team,
            scores: None,
            standings: None,
            schedule: None,
            leaders: LeaderBoard::new(),
            boxscore: None,
            standings_filter: StandingsFilter::Conference,
            leader_category: LeaderCategory::Points,
            scores_scroll: 0,
            standings_scroll: 0,
            schedule_scroll: 0,
            leaders_scroll: 0,
            show_boxscore: false,
            selected_game_id: None,
            loading: false,
            last_updated: None,
            error: None,
            last_scores: HashMap::new(),
            request_id: 0,
        }
    }

    /// A dashboard opened on today's date in the local time zone.
    pub fn new(favorite_team: Option<String>, start_tab: usize) -> (a: App)
        ensures
            is_fresh(a, favorite_team, start_tab, a.current_date),
            a.wf(),
    {
        App::starting_on(favorite_team, start_tab, local_today())
    }

    /// The day shown, as "YYYY-MM-DD".
    pub fn date_str(&self) -> (s: String)
        requires
            self.current_date.wf(),
        ensures
            s@ == iso_date(self.current_date.days_from_ce as int),
    {
        format_iso_date(self.current_date)
    }

    /// Whether the day shown is `day`.
    pub fn shows_day(&self, day: CalendarDay) -> (b: bool)
        ensures
            b == (self.current_date == day),
    {
        self.current_date.days_from_ce == day.days_from_ce
    }

    /// Whether the day shown is today in the local time zone: the answer of
    /// comparing the day shown with the clock's day, which is one chrono
    /// represents. Which day that is depends on the clock.
    pub fn is_today(&self) -> (b: bool)
        ensures
            exists|today: CalendarDay| #[trigger] today.wf() && b == (self.current_date == today),
    {
        let today = local_today();
        let b = self.shows_day(today);
        assert(today.wf() && b == (self.current_date == today));
        b
    }

    /// The standings rows in the order the active filter lists them: a
    /// stable sort by league rank, or by conference or division name and
    /// then rank within it, a missing rank sorting last.
    pub fn filtered_standings(&self) -> (rows: Vec<&Standing>)
        ensures
            self.standings is None ==> rows@.len() == 0,
            self.standings is Some ==> exists|order: Seq<usize>|
                #[trigger] is_ranking(self.standings_filter, self.standings->0.standings@, order)
                    && rows@.len() == order.len() && forall|k: int|
                    0 <= k < order.len() ==> *#[trigger] rows@[k]
                        == self.standings->0.standings@[order[k] as int],
    {
        let mut rows: Vec<&Standing> = Vec::new();
        let standings = match &self.standings {
            Some(s) => &s.standings,
            None => return rows,
        };
        let order = standings_order(self.standings_filter, standings);
        let n = order.len();
        let mut k: usize = 0;
        while k < n
            invariant
                n == order@.len(),
                is_ranking(self.standings_filter, standings@, order@),
                k <= n,
                rows@.len() == k,
                forall|j: int| 0 <= j < k ==> *#[trigger] rows@[j] == standings@[order@[j] as int],
            decreases n - k,
        {
            assert(order@[k as int] < standings@.len());
            rows.push(&standings[order[k]]);
            k = k + 1;
        }
        rows
    }

    /// The heading a row sits under, or `None` when the active filter is flat.
    pub fn standings_group<'a>(&self, standing: &'a Standing) -> (g: Option<&'a str>)
        ensures
            self.standings_filter == StandingsFilter::Conference ==> g is Some && g->0@
                == standing.conference_name@,
            self.standings_filter == StandingsFilter::Division ==> g is Some && g->0@
                == standing.division_name@,
            self.standings_filter == StandingsFilter::League ==> g is None,
    {
        match self.standings_filter {
            StandingsFilter::Conference => Some(standing.conference_name.as_str()),
            StandingsFilter::Division => Some(standing.division_name.as_str()),
            StandingsFilter::League => None,
        }
    }

    /// Marks a new fetch as under way and says what it is to ask for: the
    /// day shown, and the open boxscore's game if there is one.
    pub fn begin_fetch(&mut self) -> (req: FetchRequest)
        requires
            old(self).wf(),
            old(self).request_id < u64::MAX,
        ensures
            *final(self) == fetch_started(*old(self)),
            req.request_id == final(self).request_id,
            req.date@ == iso_date(old(self).current_date.days_from_ce as int),
            req.boxscore_game == (if old(self).show_boxscore {
                old(self).selected_game_id
            } else {
                None
            }),
            final(self).wf(),
    {
        self.request_id = self.request_id + 1;
        self.loading = true;
        let date = self.date_str();
        let boxscore_game = if self.show_boxscore {
            self.selected_game_id
        } else {
            None
        };
        FetchRequest { request_id: self.request_id, date, boxscore_game }
    }

    /// Acts on one action of the event loop and says what the loop must do
    /// next: a refresh starts a fetch, a landed fetch may ring the bell, a
    /// key may queue another action.
    pub fn dispatch(&mut self, action: Action) -> (r: Reaction)
        requires
            dispatch_allowed(*old(self), action),
        ensures
            final(self).wf(),
            r.quit == final(self).should_quit,
            match action {
                Action::Render => {
                    &&& *final(self) == *old(self)
                    &&& r.fetch is None && !r.bell && r.follow_up is None
                },
                Action::Refresh => {
                    &&& *final(self) == fetch_started(*old(self))
                    &&& r.fetch is Some
                    &&& r.fetch->0.request_id == final(self).request_id
                    &&& r.fetch->0.date@ == iso_date(old(self).current_date.days_from_ce as int)
                    &&& r.fetch->0.boxscore_game == (if old(self).show_boxscore {
                        old(self).selected_game_id
                    } else {
                        None
                    })
                    &&& !r.bell && r.follow_up is None
                },
                Action::Fetched(f) => {
                    &&& r.fetch is None && r.follow_up is None
                    &&& f.request_id != old(self).request_id ==> *final(self) == *old(self)
                        && !r.bell
                    &&& f.request_id == old(self).request_id ==> {
                        &&& final(self).last_updated is Some
                        &&& {
                            let landed = landed(*old(self), *f, final(self).last_updated->0);
                            &&& *final(self) == (App {
                                last_scores: final(self).last_scores,
                                ..landed
                            })
                            &&& final(self).last_scores@ == score_alert(landed).1
                            &&& r.bell == score_alert(landed).0
                        }
                    }
                },
                Action::Key(k) => {
                    &&& *final(self) == key_transition(*old(self), k).0
                    &&& (r.follow_up is Some <==> key_transition(*old(self), k).1)
                    &&& (r.follow_up is Some ==> r.follow_up->0 is Refresh)
                    &&& r.fetch is None && !r.bell
                },
            },
    {
        let mut reaction = Reaction { fetch: None, bell: false, follow_up: None, quit: false };
        match action {
            Action::Render => {},
            Action::Refresh => {
                reaction.fetch = Some(self.begin_fetch());
            },
            Action::Fetched(fetched) => {
                reaction.bell = self.apply_fetch(*fetched);
            },
            Action::Key(key) => {
                reaction.follow_up = self.handle_key(key);
            },
        }
        reaction.quit = self.should_quit;
        reaction
    }
}

// ---------------------------------------------------------------------------
// Laws
// ---------------------------------------------------------------------------

/// Game `g` of the favourite team has scored past the combined score
/// remembered for it.
pub open spec fn scored_since(g: Game, fav: Seq<char>, last: Map<u64, u32>) -> bool {
    involves(g, fav) && last.contains_key(g.id) && game_total(g) > last[g.id]
}

/// A check alerts exactly when one of the favourite team's games has a
/// higher combined score than the one remembered for it: a game seen for
/// the first time, or one without the favourite team, never alerts.
pub proof fn lemma_alert_iff_scored(games: Seq<Game>, fav: Seq<char>, last: Map<u64, u32>)
    ensures
        alert_scan(games, fav, last).0 <==> exists|i: int|
            0 <= i < games.len() && #[trigger] scored_since(games[i], fav, last),
    decreases games.len(),
{
    if games.len() > 0 {
        let init = games.drop_last();
        let n = games.len() - 1;
        let g = games[n];
        assert(games.last() == g);
        lemma_alert_iff_scored(init, fav, last);
        if alert_scan(games, fav, last).0 {
            if alert_scan(init, fav, last).0 {
                let i = choose|i: int| 0 <= i < init.len() && #[trigger] scored_since(init[i], fav, last);
                assert(games[i] == init[i]);
                assert(scored_since(games[i], fav, last));
            } else {
                assert(scored_since(games[n], fav, last));
            }
        }
        if exists|i: int| 0 <= i < games.len() && #[trigger] scored_since(games[i], fav, last) {
            let i = choose|i: int| 0 <= i < games.len() && #[trigger] scored_since(games[i], fav, last);
            if i < n {
                assert(init[i] == games[i]);
                assert(scored_since(init[i], fav, last));
            } else {
                assert(scored_since(g, fav, last));
            }
            assert(alert_scan(games, fav, last).0);
        }
    }
}

/// A check alerts exactly when some game of the favourite team (playing at
/// home or away) that was remembered now has a larger combined score, home
/// plus away with a missing score counting as zero, than the one remembered.
/// So a goal by either side of such a game rings the bell.
pub proof fn lemma_alert_when_either_side_scores(games: Seq<Game>, fav: Seq<char>, last: Map<u64, u32>)
    ensures
        alert_scan(games, fav, last).0 <==> exists|i: int|
            #![trigger games[i]]
            0 <= i < games.len() && (games[i].home_team.abbrev@ == fav
                || games[i].away_team.abbrev@ == fav) && last.contains_key(games[i].id) && (match games[i].home_team.score {
                Some(h) => h as int,
                None => 0int,
            }) + (match games[i].away_team.score {
                Some(v) => v as int,
                None => 0int,
            }) > last[games[i].id],
{
    lemma_alert_iff_scored(games, fav, last);
    if alert_scan(games, fav, last).0 {
        let i = choose|i: int| 0 <= i < games.len() && #[trigger] scored_since(games[i], fav, last);
        assert(scored_since(games[i], fav, last));
    }
    if exists|i: int|
        #![trigger games[i]]
        0 <= i < games.len() && (games[i].home_team.abbrev@ == fav || games[i].away_team.abbrev@
            == fav) && last.contains_key(games[i].id) && (match games[i].home_team.score {
            Some(h) => h as int,
            None => 0int,
        }) + (match games[i].away_team.score {
            Some(v) => v as int,
            None => 0int,
        }) > last[games[i].id] {
        let i = choose|i: int|
            #![trigger games[i]]
            0 <= i < games.len() && (games[i].home_team.abbrev@ == fav
                || games[i].away_team.abbrev@ == fav) && last.contains_key(games[i].id) && (match games[i].home_team.score {
                Some(h) => h as int,
                None => 0int,
            }) + (match games[i].away_team.score {
                Some(v) => v as int,
                None => 0int,
            }) > last[games[i].id];
        assert(scored_since(games[i], fav, last));
    }
}

/// After a check, each game of the favourite team (listed once, its score
/// fitting a `u32`) is remembered at its combined score: home plus away, a
/// missing score counting as zero.
pub proof fn lemma_remembered_score_is_both_sides(games: Seq<Game>, fav: Seq<char>, last: Map<u64, u32>, i: int)
    requires
        forall|i: int, j: int|
            0 <= i < games.len() && 0 <= j < games.len() && involves(#[trigger] games[i], fav)
                && involves(#[trigger] games[j], fav) && games[i].id == games[j].id ==> i == j,
        0 <= i < games.len(),
        games[i].home_team.abbrev@ == fav || games[i].away_team.abbrev@ == fav,
        (match games[i].home_team.score {
            Some(h) => h as int,
            None => 0int,
        }) + (match games[i].away_team.score {
            Some(v) => v as int,
            None => 0int,
        }) <= u32::MAX,
    ensures
        alert_scan(games, fav, last).1.contains_key(games[i].id),
        alert_scan(games, fav, last).1[games[i].id] == (match games[i].home_team.score {
            Some(h) => h as int,
            None => 0int,
        }) + (match games[i].away_team.score {
            Some(v) => v as int,
            None => 0int,
        }),
{
    lemma_scan_remembers_favorite_games(games, fav, last);
    assert(involves(games[i], fav));
}

/// The remembered scores after a check: exactly the favourite team's games,
/// each with its combined score (when no game is listed twice).
pub proof fn lemma_scan_remembers_favorite_games(games: Seq<Game>, fav: Seq<char>, last: Map<u64, u32>)
    requires
        forall|i: int, j: int|
            0 <= i < games.len() && 0 <= j < games.len() && involves(#[trigger] games[i], fav)
                && involves(#[trigger] games[j], fav) && games[i].id == games[j].id ==> i == j,
    ensures
        forall|i: int|
            0 <= i < games.len() && involves(#[trigger] games[i], fav) ==> alert_scan(
                games,
                fav,
                last,
            ).1.contains_key(games[i].id) && alert_scan(games, fav, last).1[games[i].id]
                == game_total(games[i]) as u32,
        forall|id: u64|
            #[trigger] alert_scan(games, fav, last).1.contains_key(id) ==> exists|i: int|
                0 <= i < games.len() && involves(#[trigger] games[i], fav) && games[i].id == id,
    decreases games.len(),
{
    if games.len() > 0 {
        let init = games.drop_last();
        assert forall|i: int, j: int|
            0 <= i < init.len() && 0 <= j < init.len() && involves(#[trigger] init[i], fav)
                && involves(#[trigger] init[j], fav) && init[i].id == init[j].id implies i == j by {
            assert(init[i] == games[i] && init[j] == games[j]);
        }
        lemma_scan_remembers_favorite_games(init, fav, last);
        let n = games.len() - 1;
        assert forall|i: int|
            0 <= i < games.len() && involves(#[trigger] games[i], fav) implies alert_scan(
            games,
            fav,
            last,
        ).1.contains_key(games[i].id) && alert_scan(games, fav, last).1[games[i].id] == game_total(
            games[i],
        ) as u32 by {
            if i < n {
                assert(init[i] == games[i]);
                if involves(games[n], fav) {
                    assert(games[i].id != games[n].id);
                }
            }
        }
        assert forall|id: u64| #[trigger]
            alert_scan(games, fav, last).1.contains_key(id) implies exists|i: int|
            0 <= i < games.len() && involves(#[trigger] games[i], fav) && games[i].id == id by {
            if alert_scan(init, fav, last).1.contains_key(id) {
                let i = choose|i: int|
                    0 <= i < init.len() && involves(#[trigger] init[i], fav) && init[i].id == id;
                assert(games[i] == init[i]);
            } else {
                assert(involves(games[n], fav) && games[n].id == id);
            }
        }
    }
}

/// Checking the same scores twice in a row never alerts the second time:
/// after a check, every game of the favourite team is remembered at its
/// present score. (This asks that no game be listed twice and that the
/// scores fit the remembered `u32`.)
pub proof fn lemma_same_scores_alert_once(games: Seq<Game>, fav: Seq<char>, last: Map<u64, u32>)
    requires
        forall|i: int, j: int|
            0 <= i < games.len() && 0 <= j < games.len() && involves(#[trigger] games[i], fav)
                && involves(#[trigger] games[j], fav) && games[i].id == games[j].id ==> i == j,
        forall|i: int|
            0 <= i < games.len() && involves(#[trigger] games[i], fav) ==> game_total(games[i])
                <= u32::MAX,
    ensures
        !alert_scan(games, fav, alert_scan(games, fav, last).1).0,
{
    let seen = alert_scan(games, fav, last).1;
    lemma_scan_remembers_favorite_games(games, fav, last);
    lemma_alert_iff_scored(games, fav, seen);
    assert forall|i: int| 0 <= i < games.len() implies !#[trigger] scored_since(games[i], fav, seen) by {
        if involves(games[i], fav) {
            assert(seen[games[i].id] == game_total(games[i]) as u32);
        }
    }
}

/// After a refresh lands, every tab's selection is on a row that exists (or
/// at the top of an empty list), clamping again changes nothing, and the
/// scores tab selects a game whenever there is one.
pub proof fn lemma_clamp_keeps_selection_on_rows(a: App, t: Tab)
    ensures
        clamp_all(a).rows_on(t) == a.rows_on(t),
        clamp_all(a).rows_on(t) > 0 ==> clamp_all(a).scroll_on(t) < clamp_all(a).rows_on(t),
        clamp_all(a).rows_on(t) == 0 ==> clamp_all(a).scroll_on(t) == 0,
        clamp_all(a).scroll_on(t) <= a.scroll_on(t),
        clamp_all(clamp_all(a)) == clamp_all(a),
        games_len(a.scores) > 0 ==> clamp_all(a).selected_game_model() is Some,
{
}

/// Moving the selection up, down, to the top or to the bottom keeps it on a
/// row of the active tab, or at the top of an empty list.
pub proof fn lemma_navigation_stays_on_rows(a: App, k: Key)
    requires
        !a.show_boxscore,
        is_up_key(k) || is_down_key(k) || is_home_key(k) || is_end_key(k),
        a.rows_on(a.active_tab) > 0 ==> a.scroll_on(a.active_tab) < a.rows_on(a.active_tab),
        a.rows_on(a.active_tab) == 0 ==> a.scroll_on(a.active_tab) == 0,
    ensures
        ({
            let b = key_transition(a, k).0;
            &&& b.active_tab == a.active_tab
            &&& b.rows_on(b.active_tab) == a.rows_on(a.active_tab)
            &&& b.rows_on(b.active_tab) > 0 ==> b.scroll_on(b.active_tab) < b.rows_on(b.active_tab)
            &&& b.rows_on(b.active_tab) == 0 ==> b.scroll_on(b.active_tab) == 0
        }),
{
}

/// With no boxscore open, j/Down selects the next row of the active tab when
/// there is one (and otherwise stays), k/Up the previous one (staying at the
/// top), g/Home the first and G/End the last (the top of an empty list).
/// Nothing else changes: not the other tabs' selections, not the tab, and no
/// refresh is asked for. (The row count is that of lists held in memory, so
/// it fits a `usize`.)
pub proof fn lemma_navigation_keys_move_the_selection(a: App, k: Key)
    requires
        !a.show_boxscore,
        a.rows_on(a.active_tab) <= usize::MAX,
        k.code == KeyCode::Down || k.code == KeyCode::Char('j') || k.code == KeyCode::Up || k.code
            == KeyCode::Char('k') || k.code == KeyCode::Home || k.code == KeyCode::Char('g')
            || k.code == KeyCode::End || k.code == KeyCode::Char('G'),
    ensures
        ({
            let t = a.active_tab;
            let scroll = a.scroll_on(t) as int;
            let rows = a.rows_on(t) as int;
            let (b, refresh) = key_transition(a, k);
            &&& !refresh
            &&& b == a.with_scroll(t, b.scroll_on(t))
            &&& b.rows_on(t) == rows
            &&& (k.code == KeyCode::Down || k.code == KeyCode::Char('j')) ==> b.scroll_on(t) == (
            if scroll + 1 < rows {
                scroll + 1
            } else {
                scroll
            })
            &&& (k.code == KeyCode::Up || k.code == KeyCode::Char('k')) ==> b.scroll_on(t) == (
            if scroll > 0 {
                scroll - 1
            } else {
                0
            })
            &&& (k.code == KeyCode::Home || k.code == KeyCode::Char('g')) ==> b.scroll_on(t) == 0
            &&& (k.code == KeyCode::End || k.code == KeyCode::Char('G')) ==> b.scroll_on(t) == (
            if rows > 0 {
                rows - 1
            } else {
                0
            })
        }),
{
    let t = a.active_tab;
    assert(a.with_scroll(t, a.scroll_on(t)) == a);
}

/// On the scores and schedule tabs, a day forward then a day back (or back
/// then forward) shows the same day again, from the top of the lists, and
/// each step asks for a refresh.
pub proof fn lemma_day_steps_undo(a: App, forward: Key, back: Key)
    requires
        !a.show_boxscore,
        is_dated_tab(a.active_tab),
        is_forward_key(forward),
        is_back_key(back),
        MIN_DAY < a.current_date.days_from_ce < MAX_DAY,
    ensures
        key_transition(a, forward).1,
        key_transition(a, back).1,
        key_transition(key_transition(a, forward).0, back).0 == moved_to_day(a, 0),
        key_transition(key_transition(a, back).0, forward).0 == moved_to_day(a, 0),
        moved_to_day(a, 0).current_date == a.current_date,
{
}

/// While a boxscore is open, `q` and Ctrl-C quit, Esc and Enter only close
/// it, and every other key changes nothing; none asks for a refresh.
pub proof fn lemma_overlay_takes_every_key(a: App, k: Key)
    requires
        a.show_boxscore,
    ensures
        !key_transition(a, k).1,
        quits_anywhere(k) ==> key_transition(a, k).0 == (App { should_quit: true, ..a }),
        !quits_anywhere(k) && closes_overlay(k) ==> key_transition(a, k).0 == (App {
            show_boxscore: false,
            boxscore: None,
            ..a
        }),
        !quits_anywhere(k) && !closes_overlay(k) ==> key_transition(a, k).0 == a,
{
}

/// A landed fetch stores every part that arrived and keeps what was there for
/// each part that failed; the error shown is the first failure in the order
/// scores, standings, schedule, leaders, boxscore (none when all arrived);
/// loading ends, the arrival time is noted, and each tab's selection stays
/// where it was unless its list shrank below it, in which case it moves to
/// the last row (the top of an empty list). The day, the tab, the favourite
/// team and the request counter are untouched.
pub proof fn lemma_landed_fetch_stores_what_arrived(a: App, f: Fetched, now: ClockTime, t: Tab)
    ensures
        ({
            let b = landed(a, f, now);
            &&& f.scores is Ok ==> b.scores == Some(f.scores->Ok_0)
            &&& f.scores is Err ==> b.scores == a.scores
            &&& f.standings is Ok ==> b.standings == Some(f.standings->Ok_0)
            &&& f.standings is Err ==> b.standings == a.standings
            &&& f.schedule is Ok ==> b.schedule == Some(f.schedule->Ok_0)
            &&& f.schedule is Err ==> b.schedule == a.schedule
            &&& f.leaders is Ok ==> b.leaders == f.leaders->Ok_0
            &&& f.leaders is Err ==> b.leaders == a.leaders
            &&& f.boxscore is Some && f.boxscore->0 is Ok ==> b.boxscore == Some(
                f.boxscore->0->Ok_0,
            )
            &&& !(f.boxscore is Some && f.boxscore->0 is Ok) ==> b.boxscore == a.boxscore
            &&& f.scores is Err ==> b.error == Some(f.scores->Err_0)
            &&& f.scores is Ok && f.standings is Err ==> b.error == Some(f.standings->Err_0)
            &&& f.scores is Ok && f.standings is Ok && f.schedule is Err ==> b.error == Some(
                f.schedule->Err_0,
            )
            &&& f.scores is Ok && f.standings is Ok && f.schedule is Ok && f.leaders is Err
                ==> b.error == Some(f.leaders->Err_0)
            &&& f.scores is Ok && f.standings is Ok && f.schedule is Ok && f.leaders is Ok
                && f.boxscore is Some && f.boxscore->0 is Err ==> b.error == Some(
                f.boxscore->0->Err_0,
            )
            &&& f.scores is Ok && f.standings is Ok && f.schedule is Ok && f.leaders is Ok && !(
            f.boxscore is Some && f.boxscore->0 is Err) ==> b.error is None
            &&& !b.loading
            &&& b.last_updated == Some(now)
            &&& b.current_date == a.current_date
            &&& b.active_tab == a.active_tab
            &&& b.favorite_team == a.favorite_team
            &&& b.request_id == a.request_id
            &&& b.scroll_on(t) as int == (if b.rows_on(t) == 0 {
                0
            } else if a.scroll_on(t) < b.rows_on(t) {
                a.scroll_on(t) as int
            } else {
                b.rows_on(t) - 1
            })
        }),
{
}

/// Only a refresh moves the request counter, and by one: a key and a landed
/// fetch leave it as it was, starting a fetch raises it.
pub proof fn lemma_request_id_moves_only_on_refresh(a: App, k: Key, f: Fetched, now: ClockTime)
    requires
        a.request_id < u64::MAX,
    ensures
        key_transition(a, k).0.request_id == a.request_id,
        landed(a, f, now).request_id == a.request_id,
        fetch_started(a).request_id == a.request_id + 1,
{
}

/// A fetch started supersedes every earlier one: each id handed out so far
/// is at most the current one, and the new fetch's id is larger, so a result
/// tagged with an earlier id no longer matches (`apply_fetch` then leaves the
/// state unchanged and rings no bell).
pub proof fn lemma_earlier_fetches_are_superseded(a: App, f: Fetched)
    requires
        a.request_id < u64::MAX,
        f.request_id <= a.request_id,
    ensures
        f.request_id < fetch_started(a).request_id,
        f.request_id != fetch_started(a).request_id,
        fetch_started(a).loading,
{
}

/// Tab `t`'s selection is on one of its rows, or at the top of an empty list.
pub open spec fn selection_on_rows(a: App, t: Tab) -> bool {
    &&& a.rows_on(t) > 0 ==> a.scroll_on(t) < a.rows_on(t)
    &&& a.rows_on(t) == 0 ==> a.scroll_on(t) == 0
}

/// Every tab's selection is on one of its rows.
pub open spec fn selections_on_rows(a: App) -> bool {
    &&& selection_on_rows(a, Tab::Scores)
    &&& selection_on_rows(a, Tab::Standings)
    &&& selection_on_rows(a, Tab::Schedule)
    &&& selection_on_rows(a, Tab::Leaders)
}

/// No key moves any tab's selection off its rows: whatever is pressed, a
/// selection that was on a row stays on one.
pub proof fn lemma_every_key_keeps_selections_on_rows(a: App, k: Key)
    requires
        selections_on_rows(a),
    ensures
        selections_on_rows(key_transition(a, k).0),
{
    if !quits_anywhere(k) && !a.show_boxscore && !is_quit_key(k) && k.code != KeyCode::Char('r')
        && !is_tab_key(k) && (is_up_key(k) || is_down_key(k) || is_home_key(k) || is_end_key(k)) {
        lemma_navigation_stays_on_rows(a, k);
    }
}

} // verus!
