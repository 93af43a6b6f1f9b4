use makereadme::actions::{parse_actions, Action};

#[test]
fn parses_tags_in_order() {
    let acts = parse_actions("<THINK>\nplan\n</THINK><READ> Cargo.toml </READ><EXIT>");
    assert_eq!(
        acts,
        vec![
            Action::Think("plan".to_string()),
            Action::Read("Cargo.toml".to_string()),
            Action::Exit
        ]
    );
}

#[test]
fn text_without_tags_gives_no_action() {
    assert!(parse_actions("Here is your README draft.").is_empty());
    assert!(parse_actions("").is_empty());
}

#[test]
fn think_actions_do_not_count_toward_the_limit() {
    let reply = "<THINK>a</THINK><READ>1</READ><THINK>b</THINK><READ>2</READ><READ>3</READ><READ>4</READ><THINK>c</THINK><EXIT>";
    let acts = parse_actions(reply);
    assert_eq!(
        acts,
        vec![
            Action::Think("a".to_string()),
            Action::Read("1".to_string()),
            Action::Think("b".to_string()),
            Action::Read("2".to_string()),
            Action::Read("3".to_string()),
            Action::Think("c".to_string()),
        ]
    );
}

#[test]
fn write_keeps_inner_newlines_and_drops_one_at_each_end() {
    let acts = parse_actions("<WRITE>\n\n# Title\nbody\n\n</WRITE>");
    assert_eq!(acts, vec![Action::Write("\n# Title\nbody\n".to_string())]);
}

#[test]
fn missing_closing_tag_stops_parsing() {
    let acts = parse_actions("<READ>a.rs</READ><WRITE>unfinished <READ>b.rs</READ>");
    assert_eq!(acts, vec![Action::Read("a.rs".to_string())]);
}

#[test]
fn exit_closing_tag_is_optional() {
    assert_eq!(parse_actions("<EXIT></EXIT><THINK>x</THINK>"), vec![Action::Exit, Action::Think("x".to_string())]);
    assert_eq!(parse_actions("<EXIT><THINK>x</THINK>"), vec![Action::Exit, Action::Think("x".to_string())]);
}

#[test]
fn earliest_tag_wins() {
    let acts = parse_actions("noise <WRITE>w</WRITE> <READ>r</READ>");
    assert_eq!(acts, vec![Action::Write("w".to_string()), Action::Read("r".to_string())]);
}

#[test]
fn read_path_is_trimmed_with_unicode_whitespace() {
    let acts = parse_actions("<READ>\u{3000} src/main.rs\t\n</READ>");
    assert_eq!(acts, vec![Action::Read("src/main.rs".to_string())]);
}

#[test]
fn non_ascii_text_around_tags() {
    let acts = parse_actions("ünïcödé <THINK>çok güzel</THINK>→<READ>ä.rs</READ>");
    assert_eq!(
        acts,
        vec![Action::Think("çok güzel".to_string()), Action::Read("ä.rs".to_string())]
    );
}

#[test]
fn prefix_without_tags_changes_nothing() {
    let reply = "<READ>src</READ><WRITE>x</WRITE>";
    let prefixed = format!("Sure, here you go: {}", reply);
    assert_eq!(parse_actions(&prefixed), parse_actions(reply));
}
