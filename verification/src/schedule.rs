use vstd::prelude::*;
use vstd::string::StringExecFns;
use crate::dates::Date;
use crate::dates::date_le;
use crate::dates::in_window;
use crate::dates::parse_rfc3339_day;
use crate::dates::rfc3339_day;
use crate::dates::spec_in_window;
use crate::order::is_stable_sort_of;
use crate::order::key_class;
use crate::order::le3;
use crate::order::lemma_class_push;
use crate::order::lemma_stable_insert;
use crate::order::sorted_by;

verus! {

/// One participant of a scheduled game. Every field may be absent.
#[derive(Clone, Debug)]
pub struct ScheduleTeam {
    pub team_id: Option<u32>,
    pub team_city: Option<String>,
    pub team_name: Option<String>,
}

pub struct TeamView {
    pub team_id: Option<u32>,
    pub team_city: Option<Seq<char>>,
    pub team_name: Option<Seq<char>>,
}

impl View for ScheduleTeam {
    type V = TeamView;

    open spec fn view(&self) -> TeamView {
        TeamView {
            team_id: self.team_id,
            team_city: crate::rankings::opt_str_view(self.team_city),
            team_name: crate::rankings::opt_str_view(self.team_name),
        }
    }
}

/// One scheduled game, as the feed lists it.
#[derive(Clone, Debug)]
pub struct Game {
    pub game_date_utc: Option<String>,
    pub home_team: ScheduleTeam,
    pub away_team: ScheduleTeam,
}

pub struct GameView {
    pub game_date_utc: Option<Seq<char>>,
    pub home_team: TeamView,
    pub away_team: TeamView,
}

impl View for Game {
    type V = GameView;

    open spec fn view(&self) -> GameView {
        GameView {
            game_date_utc: crate::rankings::opt_str_view(self.game_date_utc),
            home_team: self.home_team@,
            away_team: self.away_team@,
        }
    }
}

pub open spec fn game_views(s: Seq<Game>) -> Seq<GameView> {
    s.map_values(|g: Game| g@)
}

/// The opponent label: city and name when a non-empty city is given, the bare
/// name when it is non-empty, and a placeholder when neither is usable.
pub open spec fn format_team_spec(t: TeamView) -> Seq<char> {
    if t.team_city is Some && t.team_name is Some && t.team_city->0.len() > 0 {
        t.team_city->0 + " "@ + t.team_name->0
    } else if t.team_name is Some && t.team_name->0.len() > 0 {
        t.team_name->0
    } else {
        "TBD Opponent"@
    }
}

/// Formats a team for display as an opponent.
pub fn format_team(team: &ScheduleTeam) -> (r: String)
    ensures
        r@ == format_team_spec(team@),
{
    match (&team.team_city, &team.team_name) {
        (Some(city), Some(name)) => {
            if !city.as_str().is_empty() {
                let mut s = city.clone();
                s.append(" ");
                s.append(name.as_str());
                return s;
            }
        },
        _ => {},
    }
    match &team.team_name {
        Some(name) => {
            if !name.as_str().is_empty() {
                return name.clone();
            }
        },
        None => {},
    }
    String::from_str("TBD Opponent")
}

/// One line of a team's upcoming games: the day, the opponent label, and on
/// which side the team plays.
#[derive(Clone, Debug)]
pub struct GameListing {
    pub date: Date,
    pub opponent: String,
    pub is_home: bool,
}

pub struct ListingView {
    pub date: Date,
    pub opponent: Seq<char>,
    pub is_home: bool,
}

impl View for GameListing {
    type V = ListingView;

    open spec fn view(&self) -> ListingView {
        ListingView { date: self.date, opponent: self.opponent@, is_home: self.is_home }
    }
}

impl GameListing {
    pub fn new(date: Date, opponent: String, is_home: bool) -> (r: Self)
        ensures
            r@ == (ListingView { date, opponent: opponent@, is_home }),
    {
        Self { date, opponent, is_home }
    }
}

pub open spec fn listing_views(s: Seq<GameListing>) -> Seq<ListingView> {
    s.map_values(|l: GameListing| l@)
}

/// Listings order: chronological, nothing else.
pub open spec fn listing_key() -> spec_fn(ListingView) -> (int, int, int) {
    |l: ListingView| (l.date.year as int, l.date.month as int, l.date.day as int)
}

/// The listing order is exactly chronological order on the listing dates:
/// a bucket sorted by the listing key is sorted ascending by date.
pub proof fn lemma_listing_order_is_date_order(a: ListingView, b: ListingView)
    ensures
        le3(listing_key()(a), listing_key()(b)) <==> crate::dates::spec_date_le(a.date, b.date),
{
}

/// A bucket sorted by the listing key is sorted ascending by date.
pub proof fn lemma_sorted_bucket_is_chronological(s: Seq<ListingView>)
    requires
        sorted_by(s, listing_key()),
    ensures
        forall|i: int, j: int|
            0 <= i <= j < s.len() ==> crate::dates::spec_date_le(
                #[trigger] s[i].date,
                #[trigger] s[j].date,
            ),
{
    assert forall|i: int, j: int| 0 <= i <= j < s.len() implies crate::dates::spec_date_le(
        #[trigger] s[i].date,
        #[trigger] s[j].date,
    ) by {
        assert(le3(listing_key()(s[i]), listing_key()(s[j])));
        lemma_listing_order_is_date_order(s[i], s[j]);
    }
}

/// The calendar day a game is indexed under, when its timestamp parses.
pub open spec fn game_day_of(g: GameView) -> Option<Date> {
    match g.game_date_utc {
        None => None,
        Some(s) => match rfc3339_day(s) {
            None => None,
            Some((y, m, d)) => Some(Date { year: y as i64, month: m as u32, day: d as u32 }),
        },
    }
}

/// What one game contributes to the bucket of team `tid`: nothing when its
/// date is absent, unparsable or outside the window; otherwise a home line
/// when `tid` hosts and an away line when `tid` visits, in that order.
pub open spec fn game_contrib(g: GameView, tid: u32, start: Date, end: Date) -> Seq<ListingView> {
    match game_day_of(g) {
        None => Seq::empty(),
        Some(day) => {
            if !spec_in_window(day, start, end) {
                Seq::empty()
            } else {
                let home_part: Seq<ListingView> = if g.home_team.team_id == Some(tid) {
                    seq![
                        ListingView {
                            date: day,
                            opponent: format_team_spec(g.away_team),
                            is_home: true,
                        },
                    ]
                } else {
                    Seq::empty()
                };
                let away_part: Seq<ListingView> = if g.away_team.team_id == Some(tid) {
                    seq![
                        ListingView {
                            date: day,
                            opponent: format_team_spec(g.home_team),
                            is_home: false,
                        },
                    ]
                } else {
                    Seq::empty()
                };
                home_part + away_part
            }
        },
    }
}

/// Everything the games contribute to the bucket of team `tid`, in feed
/// order.
pub open spec fn team_listings(games: Seq<GameView>, tid: u32, start: Date, end: Date) -> Seq<
    ListingView,
>
    decreases games.len(),
{
    if games.len() == 0 {
        Seq::empty()
    } else {
        team_listings(games.drop_last(), tid, start, end) + game_contrib(
            games.last(),
            tid,
            start,
            end,
        )
    }
}

proof fn lemma_team_listings_step(gv: Seq<GameView>, i: int, tid: u32, start: Date, end: Date)
    requires
        0 <= i < gv.len(),
    ensures
        team_listings(gv.take(i + 1), tid, start, end) == team_listings(gv.take(i), tid, start, end)
            + game_contrib(gv[i], tid, start, end),
{
    assert(gv.take(i + 1).drop_last() =~= gv.take(i));
    assert(gv.take(i + 1).last() == gv[i]);
}

/// The per-team index of upcoming games: team ids paired with their listing
/// buckets, each id at most once.
pub struct UpcomingGamesIndex {
    pub entries: Vec<(u32, Vec<GameListing>)>,
}

impl UpcomingGamesIndex {
    pub open spec fn wf(self) -> bool {
        forall|i: int, j: int|
            0 <= i < j < self.entries@.len() ==> (#[trigger] self.entries@[i].0) != (
            #[trigger] self.entries@[j].0)
    }

    pub open spec fn has_team(self, tid: u32) -> bool {
        exists|i: int| 0 <= i < self.entries@.len() && (#[trigger] self.entries@[i].0) == tid
    }

    pub open spec fn team_at(self, tid: u32) -> int {
        choose|i: int| 0 <= i < self.entries@.len() && (#[trigger] self.entries@[i].0) == tid
    }

    /// The bucket of a team, empty when the team is unknown.
    pub open spec fn games_of(self, tid: u32) -> Seq<ListingView> {
        if self.has_team(tid) {
            listing_views(self.entries@[self.team_at(tid)].1@)
        } else {
            Seq::empty()
        }
    }

    /// Files one listing under `tid`, keeping the bucket stably sorted by
    /// date: a new listing lands after every listing dated no later.
    pub fn push_listing(&mut self, tid: u32, l: GameListing)
        requires
            old(self).wf(),
            sorted_by(old(self).games_of(tid), listing_key()),
        ensures
            final(self).wf(),
            forall|t: u32|
                t != tid ==> #[trigger] final(self).has_team(t) == old(self).has_team(t),
            forall|t: u32|
                t != tid ==> #[trigger] final(self).games_of(t) == old(self).games_of(t),
            final(self).has_team(tid),
            sorted_by(final(self).games_of(tid), listing_key()),
            final(self).games_of(tid).len() == old(self).games_of(tid).len() + 1,
            forall|k: (int, int, int)|
                #[trigger] key_class(final(self).games_of(tid), listing_key(), k) == if k
                    == listing_key()(l@) {
                    key_class(old(self).games_of(tid), listing_key(), k).push(l@)
                } else {
                    key_class(old(self).games_of(tid), listing_key(), k)
                },
    {
        let mut i: usize = 0;
        while i < self.entries.len()
            invariant
                i <= self.entries@.len(),
                *self == *old(self),
                old(self).wf(),
                sorted_by(old(self).games_of(tid), listing_key()),
                forall|t: int| 0 <= t < i ==> (#[trigger] self.entries@[t].0) != tid,
            decreases self.entries@.len() - i,
        {
            if self.entries[i].0 == tid {
                proof {
                    lemma_games_of_at(*old(self), tid, i as int);
                }
                let mut pair = self.entries.remove(i);
                insert_listing_sorted(&mut pair.1, l);
                let ghost new_pair = pair;
                self.entries.insert(i, pair);
                proof {
                    assert(self.entries@ =~= old(self).entries@.update(i as int, new_pair));
                    assert(self.wf());
                    lemma_games_of_at(*self, tid, i as int);
                    assert forall|t: u32|
                        t != tid implies #[trigger] self.has_team(t) == old(self).has_team(t) by {
                        if old(self).has_team(t) {
                            let c = old(self).team_at(t);
                            assert(old(self).entries@[c].0 == t);
                            assert(self.entries@[c].0 == t);
                        }
                        if self.has_team(t) {
                            let c = self.team_at(t);
                            assert(self.entries@[c].0 == t);
                            assert(old(self).entries@[c].0 == t);
                        }
                    }
                    assert forall|t: u32|
                        t != tid implies #[trigger] self.games_of(t) == old(self).games_of(t) by {
                        if old(self).has_team(t) {
                            let c = old(self).team_at(t);
                            assert(old(self).entries@[c].0 == t);
                            assert(self.entries@[c].0 == t);
                            lemma_games_of_at(*old(self), t, c);
                            lemma_games_of_at(*self, t, c);
                        }
                    }
                }
                return ;
            }
            i = i + 1;
        }
        proof {
            assert(!old(self).has_team(tid));
            assert(old(self).games_of(tid) =~= Seq::<ListingView>::empty());
        }
        let mut bucket: Vec<GameListing> = Vec::new();
        bucket.push(l);
        let ghost new_pair = (tid, bucket);
        self.entries.push((tid, bucket));
        proof {
            let n = old(self).entries@.len() as int;
            assert(self.entries@ =~= old(self).entries@.push(new_pair));
            assert forall|a: int, b: int|
                0 <= a < b < self.entries@.len() implies (#[trigger] self.entries@[a].0) != (
            #[trigger] self.entries@[b].0) by {
                if b == n {
                    assert(self.entries@[a].0 != tid);
                }
            }
            lemma_games_of_at(*self, tid, n);
            assert(listing_views(new_pair.1@) =~= Seq::<ListingView>::empty().push(l@));
            lemma_class_push(Seq::<ListingView>::empty(), l@, listing_key());
            assert forall|t: u32|
                t != tid implies #[trigger] self.has_team(t) == old(self).has_team(t) by {
                if old(self).has_team(t) {
                    let c = old(self).team_at(t);
                    assert(old(self).entries@[c].0 == t);
                    assert(self.entries@[c].0 == t);
                }
                if self.has_team(t) {
                    let c = self.team_at(t);
                    assert(self.entries@[c].0 == t);
                    assert(c != n);
                    assert(old(self).entries@[c].0 == t);
                }
            }
            assert forall|t: u32|
                t != tid implies #[trigger] self.games_of(t) == old(self).games_of(t) by {
                if old(self).has_team(t) {
                    let c = old(self).team_at(t);
                    assert(old(self).entries@[c].0 == t);
                    assert(self.entries@[c].0 == t);
                    lemma_games_of_at(*old(self), t, c);
                    lemma_games_of_at(*self, t, c);
                }
            }
            assert forall|k: (int, int, int)|
                #[trigger] key_class(self.games_of(tid), listing_key(), k) == if k == listing_key()(
                    l@,
                ) {
                    key_class(old(self).games_of(tid), listing_key(), k).push(l@)
                } else {
                    key_class(old(self).games_of(tid), listing_key(), k)
                } by {
                assert(key_class(Seq::<ListingView>::empty(), listing_key(), k)
                    =~= Seq::<ListingView>::empty());
                assert(key_class(old(self).games_of(tid), listing_key(), k) =~= Seq::<
                    ListingView,
                >::empty());
            }
        }
    }

    pub fn new() -> (r: Self)
        ensures
            r.wf(),
            forall|tid: u32| !(#[trigger] r.has_team(tid)),
            forall|tid: u32| #[trigger] r.games_of(tid) == Seq::<ListingView>::empty(),
    {
        UpcomingGamesIndex { entries: Vec::new() }
    }

    /// Looks a team's bucket up.
    pub fn get(&self, tid: u32) -> (r: Option<&Vec<GameListing>>)
        requires
            self.wf(),
        ensures
            r matches Some(v) ==> self.has_team(tid) && listing_views(v@) == self.games_of(tid),
            r is None ==> !self.has_team(tid),
    {
        let mut i: usize = 0;
        while i < self.entries.len()
            invariant
                i <= self.entries@.len(),
                self.wf(),
                forall|t: int| 0 <= t < i ==> (#[trigger] self.entries@[t].0) != tid,
            decreases self.entries@.len() - i,
        {
            if self.entries[i].0 == tid {
                proof {
                    lemma_games_of_at(*self, tid, i as int);
                }
                return Some(&self.entries[i].1);
            }
            i = i + 1;
        }
        None
    }
}

/// Inserts one listing right after everything dated no later than it, so
/// that listings of one day keep their arrival order.
fn insert_listing_sorted(v: &mut Vec<GameListing>, l: GameListing)
    requires
        sorted_by(listing_views(old(v)@), listing_key()),
    ensures
        sorted_by(listing_views(final(v)@), listing_key()),
        final(v)@.len() == old(v)@.len() + 1,
        forall|k: (int, int, int)|
            #[trigger] key_class(listing_views(final(v)@), listing_key(), k) == if k
                == listing_key()(l@) {
                key_class(listing_views(old(v)@), listing_key(), k).push(l@)
            } else {
                key_class(listing_views(old(v)@), listing_key(), k)
            },
{
    let ghost before = listing_views(v@);
    let mut j: usize = 0;
    while j < v.len() && date_le(&v[j].date, &l.date)
        invariant
            j <= v@.len(),
            v@ == old(v)@,
            before == listing_views(v@),
            forall|t: int| 0 <= t < j ==> le3(listing_key()(before[t]), listing_key()(l@)),
        decreases v@.len() - j,
    {
        proof {
            assert(before[j as int] == v@[j as int]@);
            assert(le3(listing_key()(before[j as int]), listing_key()(l@)));
        }
        j = j + 1;
    }
    proof {
        assert forall|t: int| j <= t < before.len() implies !le3(
            listing_key()(before[t]),
            listing_key()(l@),
        ) by {
            assert(le3(listing_key()(before[j as int]), listing_key()(before[t])));
        }
        lemma_stable_insert(before, l@, j as int, listing_key());
    }
    v.insert(j, l);
    proof {
        assert(listing_views(v@) =~= before.insert(j as int, l@));
    }
}

/// When position `i` holds team `tid` and keys are unique, the bucket at `i`
/// is the team's bucket.
pub proof fn lemma_games_of_at(idx: UpcomingGamesIndex, tid: u32, i: int)
    requires
        idx.wf(),
        0 <= i < idx.entries@.len(),
        idx.entries@[i].0 == tid,
    ensures
        idx.has_team(tid),
        idx.team_at(tid) == i,
        idx.games_of(tid) == listing_views(idx.entries@[i].1@),
{
    assert(idx.has_team(tid));
    let c = idx.team_at(tid);
    assert(0 <= c < idx.entries@.len() && idx.entries@[c].0 == tid);
    if c < i {
        assert(idx.entries@[c].0 != idx.entries@[i].0);
    } else if i < c {
        assert(idx.entries@[i].0 != idx.entries@[c].0);
    }
}

/// Carries the index invariant across one `push_listing` call: when the
/// buckets tracked `target` and team `team` then received `lv`, the buckets
/// track `target2`, which extends `target` by `lv` for that team alone.
proof fn lemma_push_step(
    pre_idx: UpcomingGamesIndex,
    post_idx: UpcomingGamesIndex,
    target: spec_fn(u32) -> Seq<ListingView>,
    target2: spec_fn(u32) -> Seq<ListingView>,
    team: u32,
    lv: ListingView,
)
    requires
        forall|tid: u32| #[trigger] pre_idx.has_team(tid) <==> target(tid).len() > 0,
        forall|tid: u32|
            is_stable_sort_of(#[trigger] pre_idx.games_of(tid), target(tid), listing_key()),
        forall|tid: u32| tid != team ==> #[trigger] target2(tid) == target(tid),
        target2(team) == target(team).push(lv),
        post_idx.wf(),
        forall|t: u32| t != team ==> #[trigger] post_idx.has_team(t) == pre_idx.has_team(t),
        forall|t: u32| t != team ==> #[trigger] post_idx.games_of(t) == pre_idx.games_of(t),
        post_idx.has_team(team),
        sorted_by(post_idx.games_of(team), listing_key()),
        post_idx.games_of(team).len() == pre_idx.games_of(team).len() + 1,
        forall|k: (int, int, int)|
            #[trigger] key_class(post_idx.games_of(team), listing_key(), k) == if k
                == listing_key()(lv) {
                key_class(pre_idx.games_of(team), listing_key(), k).push(lv)
            } else {
                key_class(pre_idx.games_of(team), listing_key(), k)
            },
    ensures
        forall|tid: u32| #[trigger] post_idx.has_team(tid) <==> target2(tid).len() > 0,
        forall|tid: u32|
            is_stable_sort_of(#[trigger] post_idx.games_of(tid), target2(tid), listing_key()),
{
    lemma_class_push(target(team), lv, listing_key());
    assert forall|tid: u32| #[trigger] post_idx.has_team(tid) <==> target2(tid).len() > 0 by {
        if tid != team {
            assert(target2(tid) == target(tid));
        } else {
            assert(target2(team).len() == target(team).len() + 1);
        }
    }
    assert forall|tid: u32|
        is_stable_sort_of(#[trigger] post_idx.games_of(tid), target2(tid), listing_key()) by {
        if tid != team {
            assert(post_idx.games_of(tid) == pre_idx.games_of(tid));
        } else {
            assert forall|k: (int, int, int)|
                #[trigger] key_class(post_idx.games_of(team), listing_key(), k) == key_class(
                    target2(team),
                    listing_key(),
                    k,
                ) by {
                assert(key_class(pre_idx.games_of(team), listing_key(), k) == key_class(
                    target(team),
                    listing_key(),
                    k,
                ));
            }
        }
    }
}

/// Indexes every game whose day falls in `[start, end)` under each
/// participating team that has an id, skipping games without a parsable
/// timestamp. Each team's bucket holds exactly its lines, in feed order per
/// day, sorted ascending by date.
pub fn build_upcoming_games_index(games: &Vec<Game>, start: &Date, end: &Date) -> (idx:
    UpcomingGamesIndex)
    ensures
        idx.wf(),
        forall|tid: u32|
            #[trigger] idx.has_team(tid) <==> team_listings(
                game_views(games@),
                tid,
                *start,
                *end,
            ).len() > 0,
        forall|tid: u32|
            is_stable_sort_of(
                #[trigger] idx.games_of(tid),
                team_listings(game_views(games@), tid, *start, *end),
                listing_key(),
            ),
{
    let ghost gv = game_views(games@);
    let mut idx = UpcomingGamesIndex::new();
    proof {
        assert forall|tid: u32|
            #[trigger] idx.has_team(tid) <==> team_listings(gv.take(0), tid, *start, *end).len()
                > 0 by {
            assert(team_listings(gv.take(0), tid, *start, *end) == Seq::<ListingView>::empty());
        }
        assert forall|tid: u32|
            is_stable_sort_of(
                #[trigger] idx.games_of(tid),
                team_listings(gv.take(0), tid, *start, *end),
                listing_key(),
            ) by {
            assert(team_listings(gv.take(0), tid, *start, *end) == Seq::<ListingView>::empty());
            assert(idx.games_of(tid) == Seq::<ListingView>::empty());
        }
    }
    let mut i: usize = 0;
    while i < games.len()
        invariant
            i <= games.len(),
            gv == game_views(games@),
            idx.wf(),
            forall|tid: u32|
                #[trigger] idx.has_team(tid) <==> team_listings(
                    gv.take(i as int),
                    tid,
                    *start,
                    *end,
                ).len() > 0,
            forall|tid: u32|
                is_stable_sort_of(
                    #[trigger] idx.games_of(tid),
                    team_listings(gv.take(i as int), tid, *start, *end),
                    listing_key(),
                ),
        decreases games.len() - i,
    {
        let ghost g = gv[i as int];
        let ghost pre = gv.take(i as int);
        let ghost post = gv.take(i as int + 1);
        let ghost t0 = |tid: u32| team_listings(pre, tid, *start, *end);
        proof {
            assert(g == games@[i as int]@);
            assert forall|tid: u32|
                team_listings(post, tid, *start, *end) == #[trigger] t0(tid) + game_contrib(
                    g,
                    tid,
                    *start,
                    *end,
                ) by {
                lemma_team_listings_step(gv, i as int, tid, *start, *end);
            }
        }
        let day_opt = match &games[i].game_date_utc {
            Some(s) => parse_rfc3339_day(s.as_str()),
            None => None,
        };
        if let Some(day) = day_opt {
            if in_window(&day, start, end) {
                proof {
                    assert(game_day_of(g) == Some(day));
                }
                let opp_home = format_team(&games[i].away_team);
                let opp_away = format_team(&games[i].home_team);
                let ghost hl = ListingView {
                    date: day,
                    opponent: format_team_spec(g.away_team),
                    is_home: true,
                };
                let ghost al = ListingView {
                    date: day,
                    opponent: format_team_spec(g.home_team),
                    is_home: false,
                };
                let ghost t1 = |tid: u32|
                    t0(tid) + (if g.home_team.team_id == Some(tid) {
                        seq![hl]
                    } else {
                        Seq::<ListingView>::empty()
                    });
                let ghost t2 = |tid: u32|
                    t1(tid) + (if g.away_team.team_id == Some(tid) {
                        seq![al]
                    } else {
                        Seq::<ListingView>::empty()
                    });
                if let Some(h) = games[i].home_team.team_id {
                    let hlisting = GameListing::new(day, opp_home, true);
                    let ghost pre_idx = idx;
                    idx.push_listing(h, hlisting);
                    proof {
                        assert forall|tid: u32| tid != h implies #[trigger] t1(tid) == t0(tid) by {
                            assert(t0(tid) + Seq::<ListingView>::empty() =~= t0(tid));
                        }
                        assert(t1(h) =~= t0(h).push(hl));
                        lemma_push_step(pre_idx, idx, t0, t1, h, hl);
                    }
                } else {
                    proof {
                        assert forall|tid: u32| #[trigger] t1(tid) == t0(tid) by {
                            assert(t0(tid) + Seq::<ListingView>::empty() =~= t0(tid));
                        }
                    }
                }
                if let Some(a) = games[i].away_team.team_id {
                    let alisting = GameListing::new(day, opp_away, false);
                    let ghost pre_idx = idx;
                    idx.push_listing(a, alisting);
                    proof {
                        assert forall|tid: u32| tid != a implies #[trigger] t2(tid) == t1(tid) by {
                            assert(t1(tid) + Seq::<ListingView>::empty() =~= t1(tid));
                        }
                        assert(t2(a) =~= t1(a).push(al));
                        lemma_push_step(pre_idx, idx, t1, t2, a, al);
                    }
                } else {
                    proof {
                        assert forall|tid: u32| #[trigger] t2(tid) == t1(tid) by {
                            assert(t1(tid) + Seq::<ListingView>::empty() =~= t1(tid));
                        }
                    }
                }
                proof {
                    assert forall|tid: u32|
                        #[trigger] team_listings(post, tid, *start, *end) == t2(tid) by {
                        let hp: Seq<ListingView> = if g.home_team.team_id == Some(tid) {
                            seq![hl]
                        } else {
                            Seq::empty()
                        };
                        let ap: Seq<ListingView> = if g.away_team.team_id == Some(tid) {
                            seq![al]
                        } else {
                            Seq::empty()
                        };
                        assert(game_contrib(g, tid, *start, *end) == hp + ap);
                        assert((t0(tid) + hp) + ap =~= t0(tid) + (hp + ap));
                    }
                }
            } else {
                proof {
                    assert(game_day_of(g) == Some(day));
                    assert(!spec_in_window(day, *start, *end));
                    assert forall|tid: u32|
                        #[trigger] team_listings(post, tid, *start, *end) == t0(tid) by {
                        assert(game_contrib(g, tid, *start, *end) =~= Seq::<ListingView>::empty());
                        assert(t0(tid) + Seq::<ListingView>::empty() =~= t0(tid));
                    }
                }
            }
        } else {
            proof {
                assert(game_day_of(g) is None);
                assert forall|tid: u32|
                    #[trigger] team_listings(post, tid, *start, *end) == t0(tid) by {
                    assert(game_contrib(g, tid, *start, *end) =~= Seq::<ListingView>::empty());
                    assert(t0(tid) + Seq::<ListingView>::empty() =~= t0(tid));
                }
            }
        }
        i = i + 1;
    }
    proof {
        assert(gv.take(games@.len() as int) =~= gv);
    }
    idx
}

} // verus!
