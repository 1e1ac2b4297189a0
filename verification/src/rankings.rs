use vstd::prelude::*;
use vstd::string::StringExecFns;
use crate::errors::RunError;
use crate::order::is_stable_sort_of;
use crate::order::le3;
use crate::order::lemma_class_push;
use crate::order::lemma_stable_insert;

verus! {

/// One raw entry of a power-rankings article. Every field may be absent.
#[derive(Clone, Debug)]
pub struct RankingEntry {
    pub team_id: Option<u32>,
    pub team_name: Option<String>,
    pub team_nickname: Option<String>,
    pub team_display_name: Option<String>,
    pub current_week_rank: Option<u32>,
}

/// The mathematical shadow of a `RankingEntry`: strings become character
/// sequences.
pub struct EntryView {
    pub team_id: Option<u32>,
    pub team_name: Option<Seq<char>>,
    pub team_nickname: Option<Seq<char>>,
    pub team_display_name: Option<Seq<char>>,
    pub current_week_rank: Option<u32>,
}

pub open spec fn opt_str_view(o: Option<String>) -> Option<Seq<char>> {
    match o {
        Some(s) => Some(s@),
        None => None,
    }
}

impl View for RankingEntry {
    type V = EntryView;

    open spec fn view(&self) -> EntryView {
        EntryView {
            team_id: self.team_id,
            team_name: opt_str_view(self.team_name),
            team_nickname: opt_str_view(self.team_nickname),
            team_display_name: opt_str_view(self.team_display_name),
            current_week_rank: self.current_week_rank,
        }
    }
}

/// An entry that survived validation: rank, team id and a display name.
#[derive(Clone, Debug)]
pub struct ResolvedRanking {
    pub rank: u32,
    pub team_id: u32,
    pub team_name: String,
}

pub struct ResolvedView {
    pub rank: u32,
    pub team_id: u32,
    pub team_name: Seq<char>,
}

impl View for ResolvedRanking {
    type V = ResolvedView;

    open spec fn view(&self) -> ResolvedView {
        ResolvedView { rank: self.rank, team_id: self.team_id, team_name: self.team_name@ }
    }
}

pub open spec fn string_views(s: Seq<String>) -> Seq<Seq<char>> {
    s.map_values(|x: String| x@)
}

pub open spec fn entry_views(s: Seq<RankingEntry>) -> Seq<EntryView> {
    s.map_values(|e: RankingEntry| e@)
}

pub open spec fn resolved_views(s: Seq<ResolvedRanking>) -> Seq<ResolvedView> {
    s.map_values(|r: ResolvedRanking| r@)
}

/// The name an entry resolves to: team name first, then nickname, then
/// display name.
pub open spec fn pick_name(e: EntryView) -> Option<Seq<char>> {
    if e.team_name is Some {
        e.team_name
    } else if e.team_nickname is Some {
        e.team_nickname
    } else {
        e.team_display_name
    }
}

/// An entry survives exactly when rank, team id and at least one name field
/// are present.
pub open spec fn resolve_entry_spec(e: EntryView) -> Option<ResolvedView> {
    match (e.current_week_rank, e.team_id, pick_name(e)) {
        (Some(rank), Some(team_id), Some(team_name)) => Some(
            ResolvedView { rank, team_id, team_name },
        ),
        _ => None,
    }
}

/// An entry missing its rank, its team id, or all three name fields never
/// resolves.
pub proof fn lemma_incomplete_entry_dropped(e: EntryView)
    requires
        e.current_week_rank is None || e.team_id is None || (e.team_name is None
            && e.team_nickname is None && e.team_display_name is None),
    ensures
        resolve_entry_spec(e) is None,
{
}

/// Name precedence: a complete entry resolves to its team name when that is
/// present, else to its nickname when that is present, else to its display
/// name.
pub proof fn lemma_name_precedence(e: EntryView)
    requires
        e.current_week_rank is Some,
        e.team_id is Some,
    ensures
        e.team_name is Some ==> (resolve_entry_spec(e) matches Some(r) && r.team_name
            == e.team_name->0),
        e.team_name is None && e.team_nickname is Some ==> (resolve_entry_spec(e) matches Some(r)
            && r.team_name == e.team_nickname->0),
        e.team_name is None && e.team_nickname is None && e.team_display_name is Some ==> (
        resolve_entry_spec(e) matches Some(r) && r.team_name == e.team_display_name->0),
{
}

/// Validates one raw entry.
pub fn resolve_entry(e: &RankingEntry) -> (r: Option<ResolvedRanking>)
    ensures
        r is Some <==> resolve_entry_spec(e@) is Some,
        r matches Some(x) ==> resolve_entry_spec(e@) == Some(x@),
{
    let rank = match e.current_week_rank {
        Some(rank) => rank,
        None => {
            return None;
        },
    };
    let team_id = match e.team_id {
        Some(team_id) => team_id,
        None => {
            return None;
        },
    };
    let team_name = if let Some(name) = &e.team_name {
        name.clone()
    } else if let Some(nick) = &e.team_nickname {
        nick.clone()
    } else if let Some(display) = &e.team_display_name {
        display.clone()
    } else {
        return None;
    };
    Some(ResolvedRanking { rank, team_id, team_name })
}

/// All entries that resolve, in article order.
pub open spec fn resolved_of(entries: Seq<EntryView>) -> Seq<ResolvedView> {
    entries.filter_map(|e: EntryView| resolve_entry_spec(e))
}

/// Rankings order: ascending rank, nothing else.
pub open spec fn rank_key() -> spec_fn(ResolvedView) -> (int, int, int) {
    |r: ResolvedView| (r.rank as int, 0, 0)
}

/// Filters the raw entries and sorts the survivors by ascending rank,
/// stably: entries of equal rank keep their article order. Fails only when
/// nothing survives.
pub fn resolve_rankings(entries: &Vec<RankingEntry>) -> (r: Result<
    Vec<ResolvedRanking>,
    RunError,
>)
    ensures
        r is Ok <==> resolved_of(entry_views(entries@)).len() > 0,
        r is Err ==> r == Err::<Vec<ResolvedRanking>, RunError>(RunError::NoRankedTeams),
        r matches Ok(v) ==> is_stable_sort_of(
            resolved_views(v@),
            resolved_of(entry_views(entries@)),
            rank_key(),
        ),
{
    let ghost ev = entry_views(entries@);
    let ghost f = |e: EntryView| resolve_entry_spec(e);
    let mut out: Vec<ResolvedRanking> = Vec::new();
    let mut i: usize = 0;
    proof {
        let e0 = Seq::<ResolvedView>::empty();
        assert(resolved_views(out@) =~= e0);
        assert(ev.take(0).filter_map(f) =~= e0);
    }
    while i < entries.len()
        invariant
            i <= entries.len(),
            ev == entry_views(entries@),
            f == (|e: EntryView| resolve_entry_spec(e)),
            is_stable_sort_of(resolved_views(out@), ev.take(i as int).filter_map(f), rank_key()),
        decreases entries.len() - i,
    {
        let ghost old_out = out@;
        let ghost prefix = ev.take(i as int).filter_map(f);
        proof {
            ev.lemma_filter_map_take_succ(f, i as int);
            assert(ev[i as int] == entries@[i as int]@);
        }
        match resolve_entry(&entries[i]) {
            Some(x) => {
                let mut j: usize = 0;
                while j < out.len() && out[j].rank <= x.rank
                    invariant
                        j <= out.len(),
                        forall|t: int|
                            0 <= t < j ==> le3(rank_key()(resolved_views(out@)[t]), rank_key()(x@)),
                        out@ == old_out,
                    decreases out.len() - j,
                {
                    j = j + 1;
                }
                proof {
                    assert forall|t: int| j <= t < out@.len() implies !le3(
                        rank_key()(resolved_views(out@)[t]),
                        rank_key()(x@),
                    ) by {
                        assert(le3(
                            rank_key()(resolved_views(out@)[j as int]),
                            rank_key()(resolved_views(out@)[t]),
                        ));
                    }
                    lemma_stable_insert(resolved_views(out@), x@, j as int, rank_key());
                    lemma_class_push(prefix, x@, rank_key());
                }
                out.insert(j, x);
                proof {
                    assert(resolved_views(out@) =~= resolved_views(old_out).insert(j as int, x@));
                    assert(ev.take(i as int + 1).filter_map(f) =~= prefix.push(x@));
                }
            },
            None => {
                proof {
                    assert(ev.take(i as int + 1).filter_map(f) =~= prefix);
                }
            },
        }
        i = i + 1;
    }
    proof {
        assert(ev.take(entries@.len() as int) =~= ev);
    }
    if out.len() == 0 {
        Err(RunError::NoRankedTeams)
    } else {
        Ok(out)
    }
}

/// What `str::trim` leaves of a string.
pub uninterp spec fn trim_spec(s: Seq<char>) -> Seq<char>;

/// Relies on `str::trim`: strips leading and trailing whitespace, a function
/// of the characters alone, and never adds characters.
#[verifier::external_body]
fn trim_to_string(s: &str) -> (r: String)
    ensures
        r@ == trim_spec(s@),
        r@.len() <= s@.len(),
{
    s.trim().to_owned()
}

/// Picks the first slug that is non-empty once trimmed, trimmed. Fails only
/// when no slug qualifies.
pub fn latest_slug(slugs: &Vec<String>) -> (r: Result<String, RunError>)
    ensures
        r is Ok <==> (exists|i: int|
            0 <= i < slugs@.len() && trim_spec(slugs@[i]@).len() > 0),
        r matches Ok(s) ==> (exists|i: int|
            0 <= i < slugs@.len() && trim_spec(slugs@[i]@).len() > 0 && s@ == trim_spec(
                slugs@[i]@,
            ) && (forall|j: int| 0 <= j < i ==> trim_spec(slugs@[j]@).len() == 0)),
        r is Err ==> r == Err::<String, RunError>(RunError::NoArticlesFound),
{
    let mut i: usize = 0;
    while i < slugs.len()
        invariant
            i <= slugs.len(),
            forall|j: int| 0 <= j < i ==> trim_spec(slugs@[j]@).len() == 0,
        decreases slugs.len() - i,
    {
        let t = trim_to_string(slugs[i].as_str());
        if !t.as_str().is_empty() {
            proof {
                assert(trim_spec(slugs@[i as int]@).len() > 0);
            }
            return Ok(t);
        }
        i = i + 1;
    }
    Err(RunError::NoArticlesFound)
}

/// The address of the article behind a slug.
pub fn article_url(slug: &str) -> (r: String)
    ensures
        r@ == "https://www.nba.com/news/"@ + slug@,
{
    let mut s = String::from_str("https://www.nba.com/news/");
    s.append(slug);
    s
}

} // verus!
