//! Where the NHL web API is asked, and how its failures are quoted.

use vstd::prelude::*;

use crate::text::{decimal, decimal_text};

verus! {

pub const BASE_URL: &'static str = "https://api-web.nhle.com/v1";

/// How many players each leaders category asks for.
pub const LEADER_LIMIT: u32 = 10;

/// Scores of the games on `date` ("YYYY-MM-DD").
pub fn scores_url(date: &str) -> (url: String)
    ensures
        url@ == BASE_URL@ + "/score/"@ + date@,
{
    String::from_str(BASE_URL).concat("/score/").concat(date)
}

/// The current standings.
pub fn standings_url() -> (url: String)
    ensures
        url@ == BASE_URL@ + "/standings/now"@,
{
    String::from_str(BASE_URL).concat("/standings/now")
}

/// The week of games around `date` ("YYYY-MM-DD").
pub fn schedule_url(date: &str) -> (url: String)
    ensures
        url@ == BASE_URL@ + "/schedule/"@ + date@,
{
    String::from_str(BASE_URL).concat("/schedule/").concat(date)
}

/// The skater leaders of every category, `limit` players each. Omitting
/// `categories` returns every category the endpoint supports in a single
/// response, keyed by category name.
pub fn leaders_url(limit: u32) -> (url: String)
    ensures
        url@ == BASE_URL@ + "/skater-stats-leaders/current?limit="@ + decimal(limit as nat),
{
    String::from_str(BASE_URL).concat("/skater-stats-leaders/current?limit=").concat(
        decimal_text(limit as u64).as_str(),
    )
}

/// The game-centre summary of a game: scoring and penalty summaries.
pub fn boxscore_url(game_id: u64) -> (url: String)
    ensures
        url@ == BASE_URL@ + "/gamecenter/"@ + decimal(game_id as nat) + "/landing"@,
{
    String::from_str(BASE_URL).concat("/gamecenter/").concat(decimal_text(game_id).as_str()).concat(
        "/landing",
    )
}

/// The first 200 characters of a response body, with an ellipsis when it
/// was cut, for error messages. Counted in characters, never bytes: player
/// names routinely contain accents.
pub open spec fn preview_of(body: Seq<char>) -> Seq<char> {
    if body.len() > 200 {
        body.take(200) + "\u{2026}"@
    } else {
        body
    }
}

/// First 200 characters of a response body, for error messages.
pub fn preview(body: &str) -> (s: String)
    ensures
        s@ == preview_of(body@),
{
    let n = body.unicode_len();
    if n > 200 {
        String::from_str(body.substring_char(0, 200)).concat("\u{2026}")
    } else {
        String::from_str(body)
    }
}

/// A preview is never longer than 200 characters and an ellipsis, and it
/// begins the body.
pub proof fn lemma_preview_is_a_prefix(body: Seq<char>)
    ensures
        preview_of(body).len() <= 201,
        body.len() <= 200 ==> preview_of(body) == body,
        body.len() > 200 ==> preview_of(body).take(200) == body.take(200),
{
    reveal_strlit("\u{2026}");
    if body.len() > 200 {
        assert(preview_of(body).take(200) =~= body.take(200));
    }
}

} // verus!
