use power_rankings::errors::RunError;
use power_rankings::rankings::{resolve_entry, resolve_rankings, latest_slug, article_url, RankingEntry};

fn entry(
    team_id: Option<u32>,
    team_name: Option<&str>,
    team_nickname: Option<&str>,
    team_display_name: Option<&str>,
    current_week_rank: Option<u32>,
) -> RankingEntry {
    RankingEntry {
        team_id,
        team_name: team_name.map(|s| s.to_string()),
        team_nickname: team_nickname.map(|s| s.to_string()),
        team_display_name: team_display_name.map(|s| s.to_string()),
        current_week_rank,
    }
}

#[test]
fn incomplete_entries_are_dropped() {
    let entries = vec![
        entry(None, Some("A"), None, None, Some(1)),
        entry(Some(10), None, None, None, Some(2)),
        entry(Some(11), Some("B"), None, None, None),
        entry(Some(12), Some("C"), None, None, Some(3)),
    ];
    let resolved = resolve_rankings(&entries).unwrap();
    assert_eq!(resolved.len(), 1);
    assert_eq!(resolved[0].team_id, 12);
    assert_eq!(resolved[0].team_name, "C");
    assert_eq!(resolved[0].rank, 3);
}

#[test]
fn no_surviving_entry_is_an_error() {
    let entries = vec![
        entry(None, Some("A"), None, None, Some(1)),
        entry(Some(7), None, None, None, None),
    ];
    assert_eq!(resolve_rankings(&entries).unwrap_err(), RunError::NoRankedTeams);
    assert_eq!(resolve_rankings(&Vec::new()).unwrap_err(), RunError::NoRankedTeams);
}

#[test]
fn name_precedence_prefers_name_then_nickname_then_display() {
    let all = entry(Some(1), Some("A"), Some("B"), Some("C"), Some(1));
    assert_eq!(resolve_entry(&all).unwrap().team_name, "A");
    let nick = entry(Some(1), None, Some("B"), Some("C"), Some(1));
    assert_eq!(resolve_entry(&nick).unwrap().team_name, "B");
    let display = entry(Some(1), None, None, Some("C"), Some(1));
    assert_eq!(resolve_entry(&display).unwrap().team_name, "C");
}

#[test]
fn resolved_rankings_sort_ascending_and_stably() {
    let entries = vec![
        entry(Some(1), Some("Third"), None, None, Some(3)),
        entry(Some(2), Some("FirstA"), None, None, Some(1)),
        entry(Some(3), Some("Second"), None, None, Some(2)),
        entry(Some(4), Some("FirstB"), None, None, Some(1)),
    ];
    let resolved = resolve_rankings(&entries).unwrap();
    let ranks: Vec<u32> = resolved.iter().map(|r| r.rank).collect();
    assert_eq!(ranks, vec![1, 1, 2, 3]);
    let names: Vec<&str> = resolved.iter().map(|r| r.team_name.as_str()).collect();
    assert_eq!(names, vec!["FirstA", "FirstB", "Second", "Third"]);
}

#[test]
fn latest_slug_takes_first_nonblank_trimmed() {
    let slugs = vec!["   ".to_string(), "".to_string(), "  power-rankings-week-9  ".to_string(), "later".to_string()];
    assert_eq!(latest_slug(&slugs).unwrap(), "power-rankings-week-9");
}

#[test]
fn latest_slug_fails_without_usable_slug() {
    let blank = vec!["   ".to_string(), "\t".to_string()];
    assert_eq!(latest_slug(&blank).unwrap_err(), RunError::NoArticlesFound);
    assert_eq!(latest_slug(&Vec::new()).unwrap_err(), RunError::NoArticlesFound);
}

#[test]
fn article_url_appends_slug() {
    assert_eq!(article_url("week-9"), "https://www.nba.com/news/week-9");
}
