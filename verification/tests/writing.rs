use username_history::endpoint::build_endpoint;
use username_history::output::render_lines;

#[test]
fn render_round_trip() {
    let lines = vec![String::from("alpha"), String::from("beta")];
    let body = render_lines(&lines);
    assert_eq!(body, "alpha\nbeta\n");
    assert_eq!(body.as_bytes(), b"alpha\nbeta\n");
}

#[test]
fn render_empty_list() {
    assert_eq!(render_lines(&vec![]), "");
}

#[test]
fn render_single_line() {
    assert_eq!(render_lines(&vec![String::from("x")]), "x\n");
}

#[test]
fn render_keeps_duplicates_and_order() {
    let lines = vec![
        String::from("b"),
        String::from("a"),
        String::from("b"),
    ];
    assert_eq!(render_lines(&lines), "b\na\nb\n");
}

#[test]
fn endpoint_for_id() {
    assert_eq!(
        build_endpoint(123),
        "https://users.roblox.com/v1/users/123/username-history"
    );
}

#[test]
fn endpoint_for_zero() {
    assert_eq!(
        build_endpoint(0),
        "https://users.roblox.com/v1/users/0/username-history"
    );
}

#[test]
fn endpoint_for_largest_id() {
    assert_eq!(
        build_endpoint(u64::MAX),
        "https://users.roblox.com/v1/users/18446744073709551615/username-history"
    );
}
