use power_rankings::dates::Date;
use power_rankings::rankings::{resolve_rankings, RankingEntry};
use power_rankings::report::render_report;
use power_rankings::schedule::{
    build_upcoming_games_index, format_team, Game, GameListing, ScheduleTeam,
};

fn team(id: Option<u32>, city: Option<&str>, name: Option<&str>) -> ScheduleTeam {
    ScheduleTeam {
        team_id: id,
        team_city: city.map(|s| s.to_string()),
        team_name: name.map(|s| s.to_string()),
    }
}

fn game(date: Option<&str>, home: ScheduleTeam, away: ScheduleTeam) -> Game {
    Game { game_date_utc: date.map(|s| s.to_string()), home_team: home, away_team: away }
}

fn window() -> (Date, Date) {
    (Date { year: 2024, month: 1, day: 10 }, Date { year: 2024, month: 1, day: 17 })
}

#[test]
fn format_team_uses_city_and_name() {
    assert_eq!(format_team(&team(None, Some("Los Angeles"), Some("Lakers"))), "Los Angeles Lakers");
    assert_eq!(format_team(&team(None, Some(""), Some("Lakers"))), "Lakers");
    assert_eq!(format_team(&team(None, None, Some("Lakers"))), "Lakers");
    assert_eq!(format_team(&team(None, None, None)), "TBD Opponent");
    assert_eq!(format_team(&team(None, None, Some(""))), "TBD Opponent");
    assert_eq!(format_team(&team(None, Some("Utah"), None)), "TBD Opponent");
}

#[test]
fn listing_new_keeps_fields() {
    let l = GameListing::new(
        Date { year: 2024, month: 1, day: 16 },
        "Los Angeles Lakers".to_string(),
        true,
    );
    assert_eq!(l.date, Date { year: 2024, month: 1, day: 16 });
    assert_eq!(l.opponent, "Los Angeles Lakers");
    assert!(l.is_home);
}

#[test]
fn window_membership_indexes_both_teams() {
    let (start, end) = window();
    let games = vec![
        game(
            Some("2024-01-16T23:30:00Z"),
            team(Some(1), Some("One City"), Some("Ones")),
            team(Some(2), Some("Two City"), Some("Twos")),
        ),
        game(
            Some("2024-01-17T00:00:01Z"),
            team(Some(1), Some("One City"), Some("Ones")),
            team(Some(3), Some("Three City"), Some("Threes")),
        ),
    ];
    let idx = build_upcoming_games_index(&games, &start, &end);
    let ones = idx.get(1).unwrap();
    assert_eq!(ones.len(), 1);
    assert_eq!(ones[0].date, Date { year: 2024, month: 1, day: 16 });
    assert!(ones[0].is_home);
    assert_eq!(ones[0].opponent, "Two City Twos");
    let twos = idx.get(2).unwrap();
    assert_eq!(twos.len(), 1);
    assert!(!twos[0].is_home);
    assert_eq!(twos[0].opponent, "One City Ones");
    assert!(idx.get(3).is_none());
}

#[test]
fn unparsable_or_missing_dates_are_skipped() {
    let (start, end) = window();
    let games = vec![
        game(None, team(Some(1), None, Some("A")), team(Some(2), None, Some("B"))),
        game(Some("not a date"), team(Some(1), None, Some("A")), team(Some(2), None, Some("B"))),
        game(Some("2024-01-12"), team(Some(1), None, Some("A")), team(Some(2), None, Some("B"))),
    ];
    let idx = build_upcoming_games_index(&games, &start, &end);
    assert!(idx.get(1).is_none());
    assert!(idx.get(2).is_none());
}

#[test]
fn game_lists_sort_ascending_by_date_regardless_of_feed_order() {
    let (start, end) = window();
    let opponent = |n: u32| team(Some(100 + n), None, Some("Foe"));
    let games = vec![
        game(Some("2024-01-15T00:30:00Z"), team(Some(1), None, Some("A")), opponent(1)),
        game(Some("2024-01-11T00:30:00Z"), team(Some(1), None, Some("A")), opponent(2)),
        game(Some("2024-01-13T00:30:00Z"), opponent(3), team(Some(1), None, Some("A"))),
        game(Some("2024-01-10T12:00:00Z"), team(Some(1), None, Some("A")), opponent(4)),
    ];
    let idx = build_upcoming_games_index(&games, &start, &end);
    let days: Vec<u32> = idx.get(1).unwrap().iter().map(|l| l.date.day).collect();
    assert_eq!(days, vec![10, 11, 13, 15]);
    assert!(!idx.get(1).unwrap()[2].is_home);
}

#[test]
fn equal_days_keep_feed_order() {
    let (start, end) = window();
    let games = vec![
        game(Some("2024-01-12T23:00:00Z"), team(Some(1), None, Some("A")), team(Some(9), None, Some("First"))),
        game(Some("2024-01-12T01:00:00Z"), team(Some(1), None, Some("A")), team(Some(8), None, Some("Second"))),
    ];
    let idx = build_upcoming_games_index(&games, &start, &end);
    let opponents: Vec<&str> = idx.get(1).unwrap().iter().map(|l| l.opponent.as_str()).collect();
    assert_eq!(opponents, vec!["First", "Second"]);
}

#[test]
fn end_to_end_report_has_four_blocks() {
    let (start, end) = window();
    let mk = |id: u32, name: &str, rank: u32| RankingEntry {
        team_id: Some(id),
        team_name: Some(name.to_string()),
        team_nickname: None,
        team_display_name: None,
        current_week_rank: Some(rank),
    };
    let entries = vec![
        mk(103, "Gamma", 3),
        mk(101, "Alpha", 1),
        mk(105, "Epsilon", 5),
        mk(102, "Beta", 2),
        mk(104, "Delta", 4),
    ];
    let ranked = resolve_rankings(&entries).unwrap();
    let games = vec![
        game(
            Some("2024-01-12T19:30:00Z"),
            team(Some(101), Some("Alpha City"), Some("Alphas")),
            team(Some(201), Some("Foe City"), Some("Foes")),
        ),
        game(
            Some("2024-01-11T19:30:00Z"),
            team(Some(202), Some("Other City"), Some("Others")),
            team(Some(102), Some("Beta City"), Some("Betas")),
        ),
        game(
            Some("2024-01-15T19:30:00Z"),
            team(Some(103), Some("Gamma City"), Some("Gammas")),
            team(Some(203), None, Some("Nicks")),
        ),
        game(
            Some("2024-02-20T19:30:00Z"),
            team(Some(104), Some("Delta City"), Some("Deltas")),
            team(Some(204), None, Some("Late")),
        ),
    ];
    let idx = build_upcoming_games_index(&games, &start, &end);
    let lines = render_report(&ranked, &idx);
    let expected = vec![
        "Alpha (Rank 1)".to_string(),
        "  2024-01-12 vs Foe City Foes".to_string(),
        "".to_string(),
        "Beta (Rank 2)".to_string(),
        "  2024-01-11 @ Other City Others".to_string(),
        "".to_string(),
        "Gamma (Rank 3)".to_string(),
        "  2024-01-15 vs Nicks".to_string(),
        "".to_string(),
        "Delta (Rank 4)".to_string(),
        "  No games scheduled in the next 7 days.".to_string(),
        "".to_string(),
    ];
    assert_eq!(lines, expected);
    let blocks = lines.iter().filter(|l| l.is_empty()).count();
    assert_eq!(blocks, 4);
}
