use arena_server::ladder::{group_by_competitor, rated_groups};

fn names(v: &[&str]) -> Vec<String> {
    v.iter().map(|s| s.to_string()).collect()
}

#[test]
fn ships_are_grouped_by_competitor() {
    let g = group_by_competitor(&names(&["red", "blue", "red", "green"]));
    assert_eq!(g.names, names(&["red", "blue", "green"]));
    assert_eq!(g.owner, vec![0, 1, 0, 2]);
}

#[test]
fn a_lone_competitor_is_not_rated() {
    assert!(rated_groups(&names(&[])).is_none());
    assert!(rated_groups(&names(&["solo"])).is_none());
    assert!(rated_groups(&names(&["solo", "solo", "solo"])).is_none());
}

#[test]
fn two_competitors_are_rated() {
    let g = rated_groups(&names(&["a", "b", "a"])).expect("two competitors are rated");
    assert_eq!(g.names, names(&["a", "b"]));
    assert_eq!(g.owner, vec![0, 1, 0]);
}
