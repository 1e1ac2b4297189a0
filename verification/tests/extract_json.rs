use power_rankings::errors::RunError;
use power_rankings::extract::{extract_embedded_payload, find_sub};
use power_rankings::json::{get_field, JsonValue};
use power_rankings::schema::{
    article_entries, category_slugs, parse_json_document, schedule_games,
};

const MARKER: &str = "<script id=\"__NEXT_DATA__\" type=\"application/json\">";

#[test]
fn find_sub_locates_first_occurrence() {
    assert_eq!(find_sub(b"abcabc", b"bc"), Some(1));
    assert_eq!(find_sub(b"abcabc", b"zx"), None);
    assert_eq!(find_sub(b"abc", b""), Some(0));
    assert_eq!(find_sub(b"", b"a"), None);
}

#[test]
fn missing_marker_is_an_error_not_an_empty_result() {
    let html = b"<html><body>No payload here</body></html>";
    assert_eq!(extract_embedded_payload(html).unwrap_err(), RunError::MarkerNotFound);
}

#[test]
fn missing_closing_tag_is_an_error() {
    let html = format!("<html>{}{{\"a\":1}}", MARKER);
    assert_eq!(extract_embedded_payload(html.as_bytes()).unwrap_err(), RunError::MarkerNotFound);
}

#[test]
fn payload_is_cut_between_marker_and_closing_tag() {
    let html = format!("<html><head></head>{}{{\"a\": 1}}</script><p>rest</p>", MARKER);
    let payload = extract_embedded_payload(html.as_bytes()).unwrap();
    assert_eq!(payload, b"{\"a\": 1}".to_vec());
}

#[test]
fn malformed_json_is_a_parse_error() {
    assert_eq!(parse_json_document(b"{not json").unwrap_err(), RunError::Parse);
}

#[test]
fn get_field_takes_the_first_matching_key() {
    let obj = JsonValue::Obj(vec![
        ("a".to_string(), JsonValue::Num(Some(1))),
        ("b".to_string(), JsonValue::Num(Some(2))),
        ("a".to_string(), JsonValue::Num(Some(3))),
    ]);
    assert!(matches!(get_field(&obj, "a"), Some(JsonValue::Num(Some(1)))));
    assert!(matches!(get_field(&obj, "b"), Some(JsonValue::Num(Some(2)))));
    assert!(get_field(&obj, "c").is_none());
    assert!(get_field(&JsonValue::Null, "a").is_none());
}

#[test]
fn fractional_team_ids_are_a_parse_error() {
    let v = parse_json_document(
        b"{\"props\":{\"pageProps\":{\"article\":{\"powerRankings\":[{\"teamId\":3.5}]}}}}",
    )
    .unwrap();
    assert_eq!(article_entries(&v).unwrap_err(), RunError::Parse);
}

#[test]
fn category_page_slugs_come_in_order() {
    let body = b"{\"props\":{\"pageProps\":{\"category\":{\"latest\":{\"items\":[{\"slug\":\"first-slug\"},{\"slug\":\"second-slug\"}]}}}}}";
    let v = parse_json_document(body).unwrap();
    let slugs = category_slugs(&v).unwrap();
    assert_eq!(slugs, vec!["first-slug".to_string(), "second-slug".to_string()]);
}

#[test]
fn category_page_with_wrong_shape_is_a_parse_error() {
    let v = parse_json_document(b"{\"props\":{}}").unwrap();
    assert_eq!(category_slugs(&v).unwrap_err(), RunError::Parse);
    let v2 = parse_json_document(
        b"{\"props\":{\"pageProps\":{\"category\":{\"latest\":{\"items\":[{\"slug\":7}]}}}}}",
    )
    .unwrap();
    assert_eq!(category_slugs(&v2).unwrap_err(), RunError::Parse);
}

#[test]
fn article_entries_read_optional_fields() {
    let body = b"{\"props\":{\"pageProps\":{\"article\":{\"powerRankings\":[{\"teamId\":7,\"teamName\":\"Suns\",\"currentWeekRank\":2},{\"teamNickname\":\"Heat\",\"teamDisplayName\":null}]}}}}";
    let v = parse_json_document(body).unwrap();
    let entries = article_entries(&v).unwrap();
    assert_eq!(entries.len(), 2);
    assert_eq!(entries[0].team_id, Some(7));
    assert_eq!(entries[0].team_name, Some("Suns".to_string()));
    assert_eq!(entries[0].team_nickname, None);
    assert_eq!(entries[0].current_week_rank, Some(2));
    assert_eq!(entries[1].team_id, None);
    assert_eq!(entries[1].team_nickname, Some("Heat".to_string()));
    assert_eq!(entries[1].team_display_name, None);
}

#[test]
fn article_without_rankings_yields_no_entries() {
    let missing_article = parse_json_document(b"{\"props\":{\"pageProps\":{}}}").unwrap();
    assert_eq!(article_entries(&missing_article).unwrap().len(), 0);
    let missing_rankings =
        parse_json_document(b"{\"props\":{\"pageProps\":{\"article\":{}}}}").unwrap();
    assert_eq!(article_entries(&missing_rankings).unwrap().len(), 0);
}

#[test]
fn article_with_wrong_field_type_is_a_parse_error() {
    let v = parse_json_document(
        b"{\"props\":{\"pageProps\":{\"article\":{\"powerRankings\":[{\"teamId\":\"seven\"}]}}}}",
    )
    .unwrap();
    assert_eq!(article_entries(&v).unwrap_err(), RunError::Parse);
}

#[test]
fn team_ids_stop_at_the_32_bit_boundary() {
    let fits = parse_json_document(
        b"{\"props\":{\"pageProps\":{\"article\":{\"powerRankings\":[{\"teamId\":4294967295}]}}}}",
    )
    .unwrap();
    assert_eq!(article_entries(&fits).unwrap()[0].team_id, Some(4294967295));
    let too_big = parse_json_document(
        b"{\"props\":{\"pageProps\":{\"article\":{\"powerRankings\":[{\"teamId\":4294967296}]}}}}",
    )
    .unwrap();
    assert_eq!(article_entries(&too_big).unwrap_err(), RunError::Parse);
}

#[test]
fn null_rankings_list_is_a_parse_error() {
    let v = parse_json_document(
        b"{\"props\":{\"pageProps\":{\"article\":{\"powerRankings\":null}}}}",
    )
    .unwrap();
    assert_eq!(article_entries(&v).unwrap_err(), RunError::Parse);
}

#[test]
fn schedule_games_flatten_in_feed_order() {
    let body = b"{\"leagueSchedule\":{\"gameDates\":[{\"games\":[{\"gameDateUTC\":\"2024-01-12T19:30:00Z\",\"homeTeam\":{\"teamId\":1,\"teamCity\":\"A\",\"teamName\":\"As\"},\"awayTeam\":{\"teamId\":2}}]},{\"games\":[{\"homeTeam\":{},\"awayTeam\":{\"teamName\":\"Bs\"}}]}]}}";
    let v = parse_json_document(body).unwrap();
    let games = schedule_games(&v).unwrap();
    assert_eq!(games.len(), 2);
    assert_eq!(games[0].game_date_utc, Some("2024-01-12T19:30:00Z".to_string()));
    assert_eq!(games[0].home_team.team_id, Some(1));
    assert_eq!(games[0].away_team.team_id, Some(2));
    assert_eq!(games[1].game_date_utc, None);
    assert_eq!(games[1].home_team.team_id, None);
    assert_eq!(games[1].away_team.team_name, Some("Bs".to_string()));
}

#[test]
fn schedule_without_league_schedule_is_a_parse_error() {
    let v = parse_json_document(b"{\"somethingElse\":[]}").unwrap();
    assert_eq!(schedule_games(&v).unwrap_err(), RunError::Parse);
}

#[test]
fn embedded_page_parses_end_to_end() {
    let html = format!(
        "<html>{}{{\"props\":{{\"pageProps\":{{\"category\":{{\"latest\":{{\"items\":[{{\"slug\":\" the-one \"}}]}}}}}}}}}}</script></html>",
        MARKER
    );
    let payload = extract_embedded_payload(html.as_bytes()).unwrap();
    let v = parse_json_document(&payload).unwrap();
    let slugs = category_slugs(&v).unwrap();
    assert_eq!(slugs, vec![" the-one ".to_string()]);
}
