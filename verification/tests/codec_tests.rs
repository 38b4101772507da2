use rstimer::solve_time::SolveTime;
use rstimer::stats::stat::Stat;
use rstimer::stats::stats::Stats;

fn sample_store() -> Stats {
    let mut stats = Stats::new();
    stats.add_session("my3x3", "3x3x3").unwrap();
    stats
        .add(
            Stat::from_parts(
                SolveTime::new(0, 12_000_000),
                "R U R' U'".to_string(),
                String::new(),
                "2024-01-01 12:00:00".to_string(),
            ),
            "my3x3",
        )
        .unwrap();
    stats
        .add(
            Stat::from_parts(
                SolveTime::new(61, 500_000_000),
                "F2 B D".to_string(),
                "tricky \"quote\" \\slash\\ and\nnewline".to_string(),
                "2024-01-02 08:30:00".to_string(),
            ),
            "my3x3",
        )
        .unwrap();
    stats.add_session("tiny", "2x2x2").unwrap();
    stats
}

#[test]
fn round_trip_restores_the_store() {
    let stats = sample_store();
    let text = stats.to_json();
    let back = Stats::from_json(&text).expect("own output must parse");
    let mut names = back.get_sessions();
    names.sort();
    assert_eq!(names, vec!["my3x3".to_string(), "tiny".to_string()]);
    let sess = back.get_session("my3x3").unwrap();
    assert_eq!(sess.scramble_type, "3x3x3");
    assert_eq!(sess.stats.len(), 2);
    assert_eq!(sess.stats[0].time, SolveTime::new(0, 12_000_000));
    assert_eq!(sess.stats[0].scramble, "R U R' U'");
    assert_eq!(sess.stats[0].comment, "");
    assert_eq!(sess.stats[0].datetime, "2024-01-01 12:00:00");
    assert_eq!(sess.stats[1].time, SolveTime::new(61, 500_000_000));
    assert_eq!(
        sess.stats[1].comment,
        "tricky \"quote\" \\slash\\ and\nnewline"
    );
    let tiny = back.get_session("tiny").unwrap();
    assert_eq!(tiny.scramble_type, "2x2x2");
    assert_eq!(tiny.stats.len(), 0);
}

#[test]
fn empty_store_round_trips() {
    let stats = Stats::new();
    let text = stats.to_json();
    assert_eq!(text, "{\n  \"sessions\": {}\n}");
    let back = Stats::from_json(&text).unwrap();
    assert_eq!(back.get_sessions().len(), 0);
}

#[test]
fn emitted_document_has_the_expected_shape() {
    let mut stats = Stats::new();
    stats.add_session("a", "2x2x2").unwrap();
    stats
        .add(
            Stat::from_parts(
                SolveTime::new(1, 5),
                "R".to_string(),
                String::new(),
                "d".to_string(),
            ),
            "a",
        )
        .unwrap();
    let expected = "{\n  \"sessions\": {\n    \"a\": {\n      \"scramble_type\": \"2x2x2\",\n      \"stats\": [\n        {\n          \"time\": {\n            \"secs\": 1,\n            \"nanos\": 5\n          },\n          \"scramble\": \"R\",\n          \"comment\": \"\",\n          \"datetime\": \"d\"\n        }\n      ]\n    }\n  }\n}";
    assert_eq!(stats.to_json(), expected);
}

#[test]
fn malformed_text_yields_none() {
    assert!(Stats::from_json("{not json").is_none());
    assert!(Stats::from_json("").is_none());
    assert!(Stats::from_json("[]").is_none());
    assert!(Stats::from_json("{\"sessions\": {}").is_none());
    assert!(Stats::from_json("{\"wrong\": {}}").is_none());
}

#[test]
fn trailing_garbage_is_malformed() {
    let text = Stats::new().to_json();
    let with_garbage = format!("{}x", text);
    assert!(Stats::from_json(&with_garbage).is_none());
    let with_ws = format!("{}\n  \n", text);
    assert!(Stats::from_json(&with_ws).is_some());
}

#[test]
fn duplicate_session_names_are_malformed() {
    let text = "{\"sessions\": {\"a\": {\"scramble_type\": \"x\", \"stats\": []},\"a\": {\"scramble_type\": \"y\", \"stats\": []}}}";
    assert!(Stats::from_json(text).is_none());
}

#[test]
fn out_of_range_nanos_are_malformed() {
    let text = "{\"sessions\": {\"a\": {\"scramble_type\": \"x\", \"stats\": [{\"time\": {\"secs\": 0, \"nanos\": 1000000000}, \"scramble\": \"\", \"comment\": \"\", \"datetime\": \"\"}]}}}";
    assert!(Stats::from_json(text).is_none());
}

#[test]
fn whitespace_between_tokens_is_accepted() {
    let text = "{\n\t \"sessions\" : {\r\n \"a\" : { \"scramble_type\" : \"3x3x3\" , \"stats\" : [ ] } } }\n";
    let back = Stats::from_json(text).unwrap();
    assert_eq!(back.get_session("a").unwrap().scramble_type, "3x3x3");
}

#[test]
fn escaped_characters_parse_back() {
    let text = "{\"sessions\": {\"q\\\"uote\": {\"scramble_type\": \"a\\\\b\\nc\", \"stats\": []}}}";
    let back = Stats::from_json(text).unwrap();
    assert!(back.has_session("q\"uote"));
    assert_eq!(back.get_session("q\"uote").unwrap().scramble_type, "a\\b\nc");
}

#[test]
fn huge_numbers_are_malformed() {
    let text = "{\"sessions\": {\"a\": {\"scramble_type\": \"x\", \"stats\": [{\"time\": {\"secs\": 99999999999999999999999, \"nanos\": 0}, \"scramble\": \"\", \"comment\": \"\", \"datetime\": \"\"}]}}}";
    assert!(Stats::from_json(text).is_none());
}
