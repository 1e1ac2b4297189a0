use vstd::prelude::*;
use crate::errors::RunError;
use crate::json::JsonValue;
use crate::json::get_field;
use crate::json::json_tree_of;
use crate::json::parse_json;
use crate::json::spec_get;
use crate::rankings::EntryView;
use crate::rankings::RankingEntry;
use crate::rankings::entry_views;
use crate::rankings::opt_str_view;
use crate::rankings::string_views;
use crate::schedule::Game;
use crate::schedule::GameView;
use crate::schedule::ScheduleTeam;
use crate::schedule::TeamView;
use crate::schedule::game_views;

verus! {

/// Parses a JSON document: `Ok` with the parsed tree exactly when the bytes
/// are one well-formed JSON document, `Err(Parse)` on everything else.
pub fn parse_json_document(bytes: &[u8]) -> (r: Result<JsonValue, RunError>)
    ensures
        r is Ok <==> json_tree_of(bytes@) is Some,
        r matches Ok(t) ==> json_tree_of(bytes@) == Some(t),
        r is Err ==> r == Err::<JsonValue, RunError>(RunError::Parse),
{
    match parse_json(bytes) {
        Ok(v) => Ok(v),
        Err(_) => Err(RunError::Parse),
    }
}

/// An optional string field: absent or `null` is no value, a string is its
/// text, and anything else refuses the document.
pub open spec fn opt_str_spec(obj: JsonValue, key: Seq<char>) -> Option<Option<Seq<char>>> {
    match spec_get(obj, key) {
        None => Some(None),
        Some(JsonValue::Null) => Some(None),
        Some(JsonValue::Str(s)) => Some(Some(s@)),
        Some(_) => None,
    }
}

/// An optional unsigned 32-bit field, read as `opt_str_spec` reads strings.
pub open spec fn opt_u32_spec(obj: JsonValue, key: Seq<char>) -> Option<Option<u32>> {
    match spec_get(obj, key) {
        None => Some(None),
        Some(JsonValue::Null) => Some(None),
        Some(JsonValue::Num(Some(n))) => if n <= u32::MAX as u64 {
            Some(Some(n as u32))
        } else {
            None
        },
        Some(_) => None,
    }
}

fn opt_string_field(obj: &JsonValue, key: &str) -> (r: Result<Option<String>, RunError>)
    ensures
        r matches Ok(x) ==> opt_str_spec(*obj, key@) == Some(opt_str_view(x)),
        r is Err <==> opt_str_spec(*obj, key@) is None,
        r is Err ==> r == Err::<Option<String>, RunError>(RunError::Parse),
{
    match get_field(obj, key) {
        None => Ok(None),
        Some(f) => match f {
            JsonValue::Null => Ok(None),
            JsonValue::Str(s) => Ok(Some(s.clone())),
            _ => Err(RunError::Parse),
        },
    }
}

fn opt_u32_field(obj: &JsonValue, key: &str) -> (r: Result<Option<u32>, RunError>)
    ensures
        r matches Ok(x) ==> opt_u32_spec(*obj, key@) == Some(x),
        r is Err <==> opt_u32_spec(*obj, key@) is None,
        r is Err ==> r == Err::<Option<u32>, RunError>(RunError::Parse),
{
    match get_field(obj, key) {
        None => Ok(None),
        Some(f) => match f {
            JsonValue::Null => Ok(None),
            JsonValue::Num(n) => match n {
                Some(n) => {
                    if *n <= u32::MAX as u64 {
                        Ok(Some(*n as u32))
                    } else {
                        Err(RunError::Parse)
                    }
                },
                None => Err(RunError::Parse),
            },
            _ => Err(RunError::Parse),
        },
    }
}

/// The slug of one article item: the string under `slug`, and nothing else.
pub open spec fn item_slug(it: JsonValue) -> Option<Seq<char>> {
    match spec_get(it, "slug"@) {
        Some(JsonValue::Str(s)) => Some(s@),
        _ => None,
    }
}

pub open spec fn slugs_from(items: Seq<JsonValue>, i: int) -> Option<Seq<Seq<char>>>
    decreases items.len() - i when 0 <= i
{
    if i >= items.len() {
        Some(Seq::empty())
    } else {
        match (item_slug(items[i]), slugs_from(items, i + 1)) {
            (Some(s), Some(rest)) => Some(seq![s] + rest),
            _ => None,
        }
    }
}

/// The slugs of a category page, in page order: the page must expose
/// `props.pageProps.category.latest.items`, each item carrying a string
/// slug; any other shape refuses the document.
pub open spec fn category_slugs_spec(doc: JsonValue) -> Option<Seq<Seq<char>>> {
    match spec_get(doc, "props"@) {
        None => None,
        Some(props) => match spec_get(props, "pageProps"@) {
            None => None,
            Some(pp) => match spec_get(pp, "category"@) {
                None => None,
                Some(cat) => match spec_get(cat, "latest"@) {
                    None => None,
                    Some(latest) => match spec_get(latest, "items"@) {
                        Some(JsonValue::Arr(items)) => slugs_from(items@, 0),
                        _ => None,
                    },
                },
            },
        },
    }
}

fn slugs_rec(items: &Vec<JsonValue>, i: usize) -> (r: Result<Vec<String>, RunError>)
    requires
        i <= items@.len(),
    ensures
        r matches Ok(s) ==> slugs_from(items@, i as int) == Some(string_views(s@)),
        r is Err <==> slugs_from(items@, i as int) is None,
        r is Err ==> r == Err::<Vec<String>, RunError>(RunError::Parse),
    decreases items@.len() - i,
{
    if i == items.len() {
        let r: Vec<String> = Vec::new();
        proof {
            assert(string_views(r@) =~= Seq::<Seq<char>>::empty());
        }
        Ok(r)
    } else {
        let slug = match get_field(&items[i], "slug") {
            Some(f) => match f {
                JsonValue::Str(s) => s.clone(),
                _ => {
                    return Err(RunError::Parse);
                },
            },
            None => {
                return Err(RunError::Parse);
            },
        };
        match slugs_rec(items, i + 1) {
            Ok(mut rest) => {
                let ghost rest0 = rest@;
                let ghost slug_chars = slug@;
                rest.insert(0, slug);
                proof {
                    assert(string_views(rest@) =~= seq![slug_chars] + string_views(rest0));
                }
                Ok(rest)
            },
            Err(e) => Err(e),
        }
    }
}

/// The slugs of a category page's article list, in page order, exactly when
/// the document has the category shape.
pub fn category_slugs(v: &JsonValue) -> (r: Result<Vec<String>, RunError>)
    ensures
        r matches Ok(slugs) ==> category_slugs_spec(*v) == Some(string_views(slugs@)),
        r is Err <==> category_slugs_spec(*v) is None,
        r is Err ==> r == Err::<Vec<String>, RunError>(RunError::Parse),
{
    let props = match get_field(v, "props") {
        Some(p) => p,
        None => {
            return Err(RunError::Parse);
        },
    };
    let page_props = match get_field(props, "pageProps") {
        Some(p) => p,
        None => {
            return Err(RunError::Parse);
        },
    };
    let category = match get_field(page_props, "category") {
        Some(p) => p,
        None => {
            return Err(RunError::Parse);
        },
    };
    let latest = match get_field(category, "latest") {
        Some(p) => p,
        None => {
            return Err(RunError::Parse);
        },
    };
    match get_field(latest, "items") {
        Some(f) => match f {
            JsonValue::Arr(items) => slugs_rec(items, 0),
            _ => Err(RunError::Parse),
        },
        None => Err(RunError::Parse),
    }
}

/// One raw ranking entry: the optional fields of an object, read leniently —
/// absent or null fields are simply absent; any other shape refuses the
/// document.
pub open spec fn entry_of(e: JsonValue) -> Option<EntryView> {
    if !(e is Obj) {
        None
    } else {
        match (
            opt_u32_spec(e, "teamId"@),
            opt_str_spec(e, "teamName"@),
            opt_str_spec(e, "teamNickname"@),
            opt_str_spec(e, "teamDisplayName"@),
            opt_u32_spec(e, "currentWeekRank"@),
        ) {
            (Some(team_id), Some(name), Some(nick), Some(disp), Some(rank)) => Some(
                EntryView {
                    team_id,
                    team_name: name,
                    team_nickname: nick,
                    team_display_name: disp,
                    current_week_rank: rank,
                },
            ),
            _ => None,
        }
    }
}

pub open spec fn entries_from(items: Seq<JsonValue>, i: int) -> Option<Seq<EntryView>>
    decreases items.len() - i when 0 <= i
{
    if i >= items.len() {
        Some(Seq::empty())
    } else {
        match (entry_of(items[i]), entries_from(items, i + 1)) {
            (Some(e), Some(rest)) => Some(seq![e] + rest),
            _ => None,
        }
    }
}

/// The raw entries of an article page, unfiltered and in article order: a
/// page without an article, or an article without a rankings list, yields
/// the empty list; a present list must be an array of objects.
pub open spec fn article_entries_spec(doc: JsonValue) -> Option<Seq<EntryView>> {
    match spec_get(doc, "props"@) {
        None => None,
        Some(props) => match spec_get(props, "pageProps"@) {
            None => None,
            Some(pp) => match spec_get(pp, "article"@) {
                None => Some(Seq::empty()),
                Some(article) => if !(article is Obj) {
                    None
                } else {
                    match spec_get(article, "powerRankings"@) {
                        None => Some(Seq::empty()),
                        Some(JsonValue::Arr(items)) => entries_from(items@, 0),
                        Some(_) => None,
                    }
                },
            },
        },
    }
}

fn read_entry(e: &JsonValue) -> (r: Result<RankingEntry, RunError>)
    ensures
        r matches Ok(x) ==> entry_of(*e) == Some(x@),
        r is Err <==> entry_of(*e) is None,
        r is Err ==> r == Err::<RankingEntry, RunError>(RunError::Parse),
{
    match e {
        JsonValue::Obj(_) => {},
        _ => {
            return Err(RunError::Parse);
        },
    }
    let team_id = match opt_u32_field(e, "teamId") {
        Ok(x) => x,
        Err(err) => {
            return Err(err);
        },
    };
    let team_name = match opt_string_field(e, "teamName") {
        Ok(x) => x,
        Err(err) => {
            return Err(err);
        },
    };
    let team_nickname = match opt_string_field(e, "teamNickname") {
        Ok(x) => x,
        Err(err) => {
            return Err(err);
        },
    };
    let team_display_name = match opt_string_field(e, "teamDisplayName") {
        Ok(x) => x,
        Err(err) => {
            return Err(err);
        },
    };
    let current_week_rank = match opt_u32_field(e, "currentWeekRank") {
        Ok(x) => x,
        Err(err) => {
            return Err(err);
        },
    };
    Ok(RankingEntry { team_id, team_name, team_nickname, team_display_name, current_week_rank })
}

fn entries_rec(items: &Vec<JsonValue>, i: usize) -> (r: Result<Vec<RankingEntry>, RunError>)
    requires
        i <= items@.len(),
    ensures
        r matches Ok(v) ==> entries_from(items@, i as int) == Some(entry_views(v@)),
        r is Err <==> entries_from(items@, i as int) is None,
        r is Err ==> r == Err::<Vec<RankingEntry>, RunError>(RunError::Parse),
    decreases items@.len() - i,
{
    if i == items.len() {
        let r: Vec<RankingEntry> = Vec::new();
        proof {
            assert(entry_views(r@) =~= Seq::<EntryView>::empty());
        }
        Ok(r)
    } else {
        let e = match read_entry(&items[i]) {
            Ok(e) => e,
            Err(err) => {
                return Err(err);
            },
        };
        match entries_rec(items, i + 1) {
            Ok(mut rest) => {
                let ghost rest0 = rest@;
                let ghost ev = e@;
                rest.insert(0, e);
                proof {
                    assert(entry_views(rest@) =~= seq![ev] + entry_views(rest0));
                }
                Ok(rest)
            },
            Err(err) => Err(err),
        }
    }
}

/// The raw ranking entries of an article page, unfiltered and in article
/// order, exactly when the document has the article shape; an absent
/// article or rankings list yields the empty list, as the upstream page
/// does during off-season weeks.
pub fn article_entries(v: &JsonValue) -> (r: Result<Vec<RankingEntry>, RunError>)
    ensures
        r matches Ok(entries) ==> article_entries_spec(*v) == Some(entry_views(entries@)),
        r is Err <==> article_entries_spec(*v) is None,
        r is Err ==> r == Err::<Vec<RankingEntry>, RunError>(RunError::Parse),
{
    let props = match get_field(v, "props") {
        Some(p) => p,
        None => {
            return Err(RunError::Parse);
        },
    };
    let page_props = match get_field(props, "pageProps") {
        Some(p) => p,
        None => {
            return Err(RunError::Parse);
        },
    };
    let article = match get_field(page_props, "article") {
        Some(a) => a,
        None => {
            let r: Vec<RankingEntry> = Vec::new();
            proof {
                assert(entry_views(r@) =~= Seq::<EntryView>::empty());
            }
            return Ok(r);
        },
    };
    match article {
        JsonValue::Obj(_) => {},
        _ => {
            return Err(RunError::Parse);
        },
    }
    match get_field(article, "powerRankings") {
        Some(f) => match f {
            JsonValue::Arr(items) => entries_rec(items, 0),
            _ => Err(RunError::Parse),
        },
        None => {
            let r: Vec<RankingEntry> = Vec::new();
            proof {
                assert(entry_views(r@) =~= Seq::<EntryView>::empty());
            }
            Ok(r)
        },
    }
}

/// One participating team under `key` in a game object: an object of
/// optional fields; anything else refuses the document.
pub open spec fn team_of_spec(g: JsonValue, key: Seq<char>) -> Option<TeamView> {
    match spec_get(g, key) {
        None => None,
        Some(t) => if !(t is Obj) {
            None
        } else {
            match (
                opt_u32_spec(t, "teamId"@),
                opt_str_spec(t, "teamCity"@),
                opt_str_spec(t, "teamName"@),
            ) {
                (Some(team_id), Some(city), Some(name)) => Some(
                    TeamView { team_id, team_city: city, team_name: name },
                ),
                _ => None,
            }
        },
    }
}

/// One game: its optional timestamp and both teams, which must be present.
pub open spec fn game_of(g: JsonValue) -> Option<GameView> {
    match (
        opt_str_spec(g, "gameDateUTC"@),
        team_of_spec(g, "homeTeam"@),
        team_of_spec(g, "awayTeam"@),
    ) {
        (Some(d), Some(home), Some(away)) => Some(
            GameView { game_date_utc: d, home_team: home, away_team: away },
        ),
        _ => None,
    }
}

pub open spec fn games_from(games: Seq<JsonValue>, i: int) -> Option<Seq<GameView>>
    decreases games.len() - i when 0 <= i
{
    if i >= games.len() {
        Some(Seq::empty())
    } else {
        match (game_of(games[i]), games_from(games, i + 1)) {
            (Some(g), Some(rest)) => Some(seq![g] + rest),
            _ => None,
        }
    }
}

/// The games of one game date: the array under `games`, each game read by
/// `game_of`.
pub open spec fn date_games(d: JsonValue) -> Option<Seq<GameView>> {
    match spec_get(d, "games"@) {
        Some(JsonValue::Arr(games)) => games_from(games@, 0),
        _ => None,
    }
}

pub open spec fn dates_from(dates: Seq<JsonValue>, i: int) -> Option<Seq<GameView>>
    decreases dates.len() - i when 0 <= i
{
    if i >= dates.len() {
        Some(Seq::empty())
    } else {
        match (date_games(dates[i]), dates_from(dates, i + 1)) {
            (Some(gs), Some(rest)) => Some(gs + rest),
            _ => None,
        }
    }
}

/// The schedule feed's games, flattened across its game dates in feed
/// order: the feed must expose `leagueSchedule.gameDates`, each date a list
/// of games, each game carrying both teams.
pub open spec fn schedule_games_spec(doc: JsonValue) -> Option<Seq<GameView>> {
    match spec_get(doc, "leagueSchedule"@) {
        None => None,
        Some(ls) => match spec_get(ls, "gameDates"@) {
            Some(JsonValue::Arr(dates)) => dates_from(dates@, 0),
            _ => None,
        },
    }
}

fn team_of(game: &JsonValue, key: &str) -> (r: Result<ScheduleTeam, RunError>)
    ensures
        r matches Ok(t) ==> team_of_spec(*game, key@) == Some(t@),
        r is Err <==> team_of_spec(*game, key@) is None,
        r is Err ==> r == Err::<ScheduleTeam, RunError>(RunError::Parse),
{
    let t = match get_field(game, key) {
        Some(t) => t,
        None => {
            return Err(RunError::Parse);
        },
    };
    match t {
        JsonValue::Obj(_) => {},
        _ => {
            return Err(RunError::Parse);
        },
    }
    let team_id = match opt_u32_field(t, "teamId") {
        Ok(x) => x,
        Err(err) => {
            return Err(err);
        },
    };
    let team_city = match opt_string_field(t, "teamCity") {
        Ok(x) => x,
        Err(err) => {
            return Err(err);
        },
    };
    let team_name = match opt_string_field(t, "teamName") {
        Ok(x) => x,
        Err(err) => {
            return Err(err);
        },
    };
    Ok(ScheduleTeam { team_id, team_city, team_name })
}

fn read_game(g: &JsonValue) -> (r: Result<Game, RunError>)
    ensures
        r matches Ok(x) ==> game_of(*g) == Some(x@),
        r is Err <==> game_of(*g) is None,
        r is Err ==> r == Err::<Game, RunError>(RunError::Parse),
{
    let game_date_utc = match opt_string_field(g, "gameDateUTC") {
        Ok(x) => x,
        Err(err) => {
            return Err(err);
        },
    };
    let home_team = match team_of(g, "homeTeam") {
        Ok(t) => t,
        Err(err) => {
            return Err(err);
        },
    };
    let away_team = match team_of(g, "awayTeam") {
        Ok(t) => t,
        Err(err) => {
            return Err(err);
        },
    };
    Ok(Game { game_date_utc, home_team, away_team })
}

fn games_rec(games: &Vec<JsonValue>, i: usize) -> (r: Result<Vec<Game>, RunError>)
    requires
        i <= games@.len(),
    ensures
        r matches Ok(v) ==> games_from(games@, i as int) == Some(game_views(v@)),
        r is Err <==> games_from(games@, i as int) is None,
        r is Err ==> r == Err::<Vec<Game>, RunError>(RunError::Parse),
    decreases games@.len() - i,
{
    if i == games.len() {
        let r: Vec<Game> = Vec::new();
        proof {
            assert(game_views(r@) =~= Seq::<GameView>::empty());
        }
        Ok(r)
    } else {
        let g = match read_game(&games[i]) {
            Ok(g) => g,
            Err(err) => {
                return Err(err);
            },
        };
        match games_rec(games, i + 1) {
            Ok(mut rest) => {
                let ghost rest0 = rest@;
                let ghost gv = g@;
                rest.insert(0, g);
                proof {
                    assert(game_views(rest@) =~= seq![gv] + game_views(rest0));
                }
                Ok(rest)
            },
            Err(err) => Err(err),
        }
    }
}

fn dates_rec(dates: &Vec<JsonValue>, i: usize) -> (r: Result<Vec<Game>, RunError>)
    requires
        i <= dates@.len(),
    ensures
        r matches Ok(v) ==> dates_from(dates@, i as int) == Some(game_views(v@)),
        r is Err <==> dates_from(dates@, i as int) is None,
        r is Err ==> r == Err::<Vec<Game>, RunError>(RunError::Parse),
    decreases dates@.len() - i,
{
    if i == dates.len() {
        let r: Vec<Game> = Vec::new();
        proof {
            assert(game_views(r@) =~= Seq::<GameView>::empty());
        }
        Ok(r)
    } else {
        let mut here = match get_field(&dates[i], "games") {
            Some(f) => match f {
                JsonValue::Arr(games) => match games_rec(games, 0) {
                    Ok(v) => v,
                    Err(err) => {
                        return Err(err);
                    },
                },
                _ => {
                    return Err(RunError::Parse);
                },
            },
            None => {
                return Err(RunError::Parse);
            },
        };
        match dates_rec(dates, i + 1) {
            Ok(mut rest) => {
                let ghost here0 = here@;
                let ghost rest0 = rest@;
                here.append(&mut rest);
                proof {
                    assert(game_views(here@) =~= game_views(here0) + game_views(rest0));
                }
                Ok(here)
            },
            Err(err) => Err(err),
        }
    }
}

/// The games of the schedule feed, flattened across its game dates in feed
/// order, exactly when the feed has the schedule shape.
pub fn schedule_games(v: &JsonValue) -> (r: Result<Vec<Game>, RunError>)
    ensures
        r matches Ok(games) ==> schedule_games_spec(*v) == Some(game_views(games@)),
        r is Err <==> schedule_games_spec(*v) is None,
        r is Err ==> r == Err::<Vec<Game>, RunError>(RunError::Parse),
{
    let league = match get_field(v, "leagueSchedule") {
        Some(p) => p,
        None => {
            return Err(RunError::Parse);
        },
    };
    match get_field(league, "gameDates") {
        Some(f) => match f {
            JsonValue::Arr(dates) => dates_rec(dates, 0),
            _ => Err(RunError::Parse),
        },
        None => Err(RunError::Parse),
    }
}

} // verus!
