use slotkeeper::persist::{parse_proxy_lines, parse_roster_lines, render_lines};
use slotkeeper::status::{extract_roster, PollError};

fn names(list: &[&str]) -> Vec<Vec<u8>> {
    list.iter().map(|s| s.as_bytes().to_vec()).collect()
}

#[test]
fn roster_is_read_from_players_sample() {
    let text = "{\"players\":{\"max\":20,\"online\":2,\"sample\":[{\"id\":\"x\",\"name\":\"Steve\"},{\"id\":\"y\",\"name\":\"Alex\"}]}}";
    let roster = extract_roster(text, &Vec::new()).expect("a well-formed response");
    assert_eq!(roster, names(&["Steve", "Alex"]));
}

#[test]
fn excluded_names_never_reach_the_roster() {
    let text = "{\"players\":{\"sample\":[{\"name\":\"Anonymous Player\"},{\"name\":\"Steve\"}]}}";
    let exclusion = names(&["Anonymous Player"]);
    let roster = extract_roster(text, &exclusion).expect("a well-formed response");
    assert_eq!(roster, names(&["Steve"]));
}

#[test]
fn roster_keeps_document_order_around_exclusions() {
    let text = "{\"players\":{\"sample\":[{\"name\":\"A\"},{\"name\":\"X\"},{\"name\":\"B\"},{\"name\":\"Y\"},{\"name\":\"C\"}]}}";
    let exclusion = names(&["X", "Y"]);
    assert_eq!(extract_roster(text, &exclusion).unwrap(), names(&["A", "B", "C"]));
}

#[test]
fn absent_players_or_sample_key_is_an_empty_roster() {
    let no_players = "{\"version\":{\"name\":\"x\"}}";
    assert_eq!(extract_roster(no_players, &Vec::new()).unwrap(), names(&[]));
    let no_sample = "{\"players\":{\"max\":20,\"online\":0}}";
    assert_eq!(extract_roster(no_sample, &Vec::new()).unwrap(), names(&[]));
}

#[test]
fn structure_mismatches_are_poll_errors() {
    assert!(matches!(
        extract_roster("not json at all", &Vec::new()),
        Err(PollError::MalformedStatus)
    ));
    assert!(matches!(extract_roster("[1,2,3]", &Vec::new()), Err(PollError::MalformedStatus)));
    let sample_not_array = "{\"players\":{\"sample\":7}}";
    assert!(matches!(
        extract_roster(sample_not_array, &Vec::new()),
        Err(PollError::MalformedStatus)
    ));
    let nameless_entry = "{\"players\":{\"sample\":[{\"id\":\"x\"}]}}";
    assert!(matches!(
        extract_roster(nameless_entry, &Vec::new()),
        Err(PollError::MalformedStatus)
    ));
}

#[test]
fn roster_file_reading_stops_at_the_first_empty_line() {
    let text = b"Alpha\nBeta\n\nGamma\n".to_vec();
    assert_eq!(parse_roster_lines(&text), names(&["Alpha", "Beta"]));
    let no_trailing_newline = b"Alpha\nBeta".to_vec();
    assert_eq!(parse_roster_lines(&no_trailing_newline), names(&["Alpha", "Beta"]));
    assert_eq!(parse_roster_lines(&Vec::new()), names(&[]));
}

#[test]
fn proxy_file_reading_skips_empty_lines() {
    let text = b"p1:1080\n\np2:1080\n".to_vec();
    assert_eq!(parse_proxy_lines(&text), names(&["p1:1080", "p2:1080"]));
}

#[test]
fn saving_writes_one_name_per_line_with_trailing_newlines() {
    let list = names(&["Alpha", "Beta"]);
    assert_eq!(render_lines(&list), b"Alpha\nBeta\n".to_vec());
    assert_eq!(render_lines(&Vec::new()), Vec::<u8>::new());
}

#[test]
fn saving_then_loading_restores_the_roster() {
    let list = names(&["Alpha", "Beta", "Gamma"]);
    let text = render_lines(&list);
    assert_eq!(parse_roster_lines(&text), list);
    assert_eq!(parse_proxy_lines(&text), list);
}
