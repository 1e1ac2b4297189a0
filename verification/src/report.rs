use vstd::prelude::*;
use vstd::string::StringExecFns;
use crate::dates::date_str;
use crate::dates::dec_rep;
use crate::dates::format_date;
use crate::dates::to_dec;
use crate::rankings::ResolvedRanking;
use crate::rankings::ResolvedView;
use crate::rankings::resolved_views;
use crate::rankings::string_views;
use crate::schedule::ListingView;
use crate::schedule::UpcomingGamesIndex;
use crate::schedule::listing_views;

verus! {

/// The heading of one team's block.
pub open spec fn header_line(r: ResolvedView) -> Seq<char> {
    r.team_name + " (Rank "@ + dec_rep(r.rank as nat) + ")"@
}

/// One upcoming game: day, side marker and opponent, indented.
pub open spec fn game_line(l: ListingView) -> Seq<char> {
    "  "@ + date_str(l.date) + " "@ + (if l.is_home {
        "vs"@
    } else {
        "@"@
    }) + " "@ + l.opponent
}

pub open spec fn no_games_line() -> Seq<char> {
    "  No games scheduled in the next 7 days."@
}

/// One team's block: its heading, its game lines — or the placeholder when
/// it has none — and a closing blank line.
pub open spec fn team_block(r: ResolvedView, idx: UpcomingGamesIndex) -> Seq<Seq<char>> {
    let games = idx.games_of(r.team_id);
    seq![header_line(r)] + (if games.len() > 0 {
        games.map_values(|l: ListingView| game_line(l))
    } else {
        seq![no_games_line()]
    }) + seq![Seq::<char>::empty()]
}

pub open spec fn report_take(rs: Seq<ResolvedView>, idx: UpcomingGamesIndex, k: int) -> Seq<
    Seq<char>,
>
    decreases k,
{
    if k <= 0 {
        Seq::empty()
    } else {
        report_take(rs, idx, k - 1) + team_block(rs[k - 1], idx)
    }
}

/// The whole report: one block per given team, first four only, in the
/// order given.
pub open spec fn report_lines(rs: Seq<ResolvedView>, idx: UpcomingGamesIndex) -> Seq<Seq<char>> {
    report_take(
        rs,
        idx,
        if rs.len() < 4 {
            rs.len() as int
        } else {
            4
        },
    )
}

/// Renders the report lines for the given rankings — callers hand the
/// resolved list in rank order, and the first four teams are covered —
/// against the index of upcoming games.
pub fn render_report(ranked: &Vec<ResolvedRanking>, idx: &UpcomingGamesIndex) -> (lines: Vec<
    String,
>)
    requires
        idx.wf(),
    ensures
        string_views(lines@) == report_lines(resolved_views(ranked@), *idx),
{
    let ghost rv = resolved_views(ranked@);
    let limit: usize = if ranked.len() < 4 {
        ranked.len()
    } else {
        4
    };
    let mut lines: Vec<String> = Vec::new();
    proof {
        assert(string_views(lines@) =~= report_take(rv, *idx, 0));
    }
    let mut i: usize = 0;
    while i < limit
        invariant
            i <= limit,
            limit as int == (if rv.len() < 4 {
                rv.len() as int
            } else {
                4
            }),
            limit <= ranked@.len(),
            idx.wf(),
            rv == resolved_views(ranked@),
            string_views(lines@) == report_take(rv, *idx, i as int),
        decreases limit - i,
    {
        let team = &ranked[i];
        proof {
            assert(rv[i as int] == ranked@[i as int]@);
        }
        let mut header = team.team_name.clone();
        header.append(" (Rank ");
        let rankstr = to_dec(team.rank as u64);
        header.append(rankstr.as_str());
        header.append(")");
        proof {
            assert(header@ =~= header_line(rv[i as int]));
        }
        let ghost lines0 = string_views(lines@);
        lines.push(header);
        let ghost with_header = lines0.push(header_line(rv[i as int]));
        proof {
            assert(string_views(lines@) =~= with_header);
        }
        let ghost gmap = idx.games_of(team.team_id).map_values(|l: ListingView| game_line(l));
        let mut listed = false;
        match idx.get(team.team_id) {
            Some(games) => {
                if games.len() > 0 {
                    listed = true;
                    let mut j: usize = 0;
                    while j < games.len()
                        invariant
                            j <= games@.len(),
                            idx.wf(),
                            gmap == idx.games_of(team.team_id).map_values(
                                |l: ListingView| game_line(l),
                            ),
                            listing_views(games@) == idx.games_of(team.team_id),
                            string_views(lines@) == with_header + gmap.take(j as int),
                        decreases games@.len() - j,
                    {
                        let l = &games[j];
                        let mut gl = String::from_str("  ");
                        let ds = format_date(&l.date);
                        gl.append(ds.as_str());
                        gl.append(" ");
                        if l.is_home {
                            gl.append("vs");
                        } else {
                            gl.append("@");
                        }
                        gl.append(" ");
                        gl.append(l.opponent.as_str());
                        proof {
                            assert(listing_views(games@)[j as int] == games@[j as int]@);
                            assert(gl@ =~= game_line(listing_views(games@)[j as int]));
                        }
                        let ghost prev_lines = lines@;
                        lines.push(gl);
                        proof {
                            assert(lines@ == prev_lines.push(gl));
                            assert(string_views(lines@) =~= string_views(prev_lines).push(gl@));
                            assert(gmap[j as int] == game_line(listing_views(games@)[j as int]));
                            assert(gl@ == gmap[j as int]);
                            assert(string_views(prev_lines).push(gl@) =~= with_header + gmap.take(
                                j as int + 1,
                            ));
                            assert(string_views(lines@) == with_header + gmap.take(j as int + 1));
                        }
                        j = j + 1;
                    }
                    proof {
                        assert(gmap.take(games@.len() as int) =~= gmap);
                    }
                }
            },
            None => {},
        }
        if !listed {
            proof {
                assert(idx.games_of(team.team_id).len() == 0);
            }
            lines.push(String::from_str("  No games scheduled in the next 7 days."));
            proof {
                assert(string_views(lines@) =~= with_header.push(no_games_line()));
            }
        }
        lines.push(String::new());
        proof {
            let block = team_block(rv[i as int], *idx);
            if idx.games_of(ranked@[i as int]@.team_id).len() > 0 {
                assert(string_views(lines@) =~= (with_header + gmap).push(Seq::<char>::empty()));
                assert(block =~= seq![header_line(rv[i as int])] + gmap + seq![
                    Seq::<char>::empty(),
                ]);
            } else {
                assert(block =~= seq![header_line(rv[i as int])] + seq![no_games_line()] + seq![
                    Seq::<char>::empty(),
                ]);
            }
            assert(string_views(lines@) =~= report_take(rv, *idx, i as int) + block);
            assert(string_views(lines@) =~= report_take(rv, *idx, i as int + 1));
        }
        i = i + 1;
    }
    proof {
        assert(report_take(rv, *idx, i as int) == report_lines(rv, *idx));
    }
    lines
}

} // verus!
