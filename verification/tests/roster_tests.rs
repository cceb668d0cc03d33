use slotkeeper::roster::{add_all_players, backfill_targets, filter_excluded, joined_players,
    left_players};

fn names(list: &[&str]) -> Vec<Vec<u8>> {
    list.iter().map(|s| s.as_bytes().to_vec()).collect()
}

#[test]
fn diff_left_spawns_only_departed() {
    // previous {A, C}, current {A, B}: left must be exactly {C}
    let previous = names(&["A", "C"]);
    let current = names(&["A", "B"]);
    let left = left_players(&previous, &current);
    assert_eq!(left, names(&["C"]));
}

#[test]
fn diff_joined_is_informational_complement() {
    let previous = names(&["A", "C"]);
    let current = names(&["A", "B"]);
    assert_eq!(joined_players(&previous, &current), names(&["B"]));
}

#[test]
fn diff_left_empty_when_nobody_left() {
    let previous = names(&["A"]);
    let current = names(&["A", "B"]);
    let left = left_players(&previous, &current);
    assert!(left.is_empty());
}

#[test]
fn first_cycle_backfill_exact() {
    // known {A, B, C}, first current {A}: exactly {B, C} are backfilled,
    // while the left computation is empty on cycle one.
    let known = names(&["A", "B", "C"]);
    let current = names(&["A"]);
    let targets = backfill_targets(&known, &current);
    assert_eq!(targets, names(&["B", "C"]));
    let left = left_players(&names(&[]), &current);
    assert!(left.is_empty());
}

#[test]
fn exclusion_filter_removes_every_excluded_name() {
    let raw = names(&["Anonymous Player", "Steve", "IlyiCraft", "Alex"]);
    let exclusion = names(&["Anonymous Player", "PansanGG_", "IlyiCraft"]);
    let roster = filter_excluded(&raw, &exclusion);
    assert_eq!(roster, names(&["Steve", "Alex"]));
}

#[test]
fn known_roster_grows_by_union_and_keeps_order() {
    let mut all = names(&["A", "B"]);
    let now = names(&["B", "C", "A", "D"]);
    add_all_players(&mut all, &now);
    assert_eq!(all, names(&["A", "B", "C", "D"]));
}

#[test]
fn known_roster_unchanged_when_nothing_new() {
    let mut all = names(&["A", "B"]);
    let now = names(&["A"]);
    add_all_players(&mut all, &now);
    assert_eq!(all, names(&["A", "B"]));
}

#[test]
fn known_roster_never_gains_excluded_names_through_filtered_rosters() {
    // The raw response holds excluded names; the roster is filtered before it
    // reaches the known roster, so the known roster never holds one.
    let exclusion = names(&["PansanGG_"]);
    let raw = names(&["PansanGG_", "Steve"]);
    let roster = filter_excluded(&raw, &exclusion);
    let mut known = names(&["Alex"]);
    add_all_players(&mut known, &roster);
    assert_eq!(known, names(&["Alex", "Steve"]));
    assert!(!known.contains(&b"PansanGG_".to_vec()));
}
