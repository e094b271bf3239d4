use shell_core::{segment, tokenize, PlatformIdentity, Shell};

fn unix_shell() -> Shell {
    Shell::new(
        PlatformIdentity::Unix,
        String::from("/home/user/project"),
        String::from("/home/user"),
        vec![(String::from("USER"), String::from("user"))],
        Vec::new(),
        String::from("/home/user/.shell_history"),
    )
}

fn toks(words: &[&str]) -> Vec<String> {
    words.iter().map(|w| w.to_string()).collect()
}

#[test]
fn tokenize_quoted_argument() {
    assert_eq!(tokenize("echo \"a b\" c"), toks(&["echo", "a b", "c"]));
}

#[test]
fn tokenize_pipe_is_standalone_token() {
    assert_eq!(tokenize("ls | grep foo"), toks(&["ls", "|", "grep", "foo"]));
}

#[test]
fn tokenize_pipe_without_spaces() {
    assert_eq!(tokenize("ls|grep foo"), toks(&["ls", "|", "grep", "foo"]));
}

#[test]
fn tokenize_collapses_spaces() {
    assert_eq!(tokenize("  echo   hello  world "), toks(&["echo", "hello", "world"]));
}

#[test]
fn tokenize_escaped_quote_is_literal() {
    assert_eq!(tokenize("say \\\"hi\\\""), toks(&["say", "\"hi\""]));
}

#[test]
fn tokenize_escaped_space_joins_token() {
    assert_eq!(tokenize("a\\ b c"), toks(&["a b", "c"]));
}

#[test]
fn tokenize_escaped_backslash() {
    assert_eq!(tokenize("a\\\\b"), toks(&["a\\b"]));
}

#[test]
fn tokenize_quoted_pipe_is_not_a_separator() {
    assert_eq!(tokenize("echo \"a|b\""), toks(&["echo", "a|b"]));
}

#[test]
fn tokenize_unterminated_quote_takes_rest_literally() {
    assert_eq!(tokenize("echo \"a b"), toks(&["echo", "a b"]));
}

#[test]
fn tokenize_trailing_backslash_is_dropped() {
    assert_eq!(tokenize("abc\\"), toks(&["abc"]));
}

#[test]
fn tokenize_empty_line() {
    assert_eq!(tokenize(""), Vec::<String>::new());
}

#[test]
fn tokenize_empty_quotes_produce_no_token() {
    assert_eq!(tokenize("\"\""), Vec::<String>::new());
}

#[test]
fn tokenize_method_matches_component() {
    let shell = unix_shell();
    assert_eq!(shell.parse_command("cat f.txt > out.txt"), toks(&["cat", "f.txt", ">", "out.txt"]));
}

#[test]
fn rejoin_and_retokenize_is_stable() {
    let first = tokenize("  ls    -l   /tmp ");
    let joined = shell_core::join_tokens(&first);
    assert_eq!(joined, "ls -l /tmp");
    assert_eq!(tokenize(&joined), first);
}

#[test]
fn segment_splits_on_pipe() {
    let shell = unix_shell();
    let tokens = shell.parse_command("ls | grep foo");
    let segs = shell.segment(&tokens);
    assert_eq!(segs, vec![toks(&["ls"]), toks(&["grep", "foo"])]);
}

#[test]
fn segment_free_function_matches_method() {
    let tokens = tokenize("a b | c");
    assert_eq!(segment(&tokens), vec![toks(&["a", "b"]), toks(&["c"])]);
}

#[test]
fn segment_drops_empty_sides() {
    assert_eq!(segment(&toks(&["|", "a", "|", "|", "b", "|"])), vec![toks(&["a"]), toks(&["b"])]);
}

#[test]
fn segment_of_only_pipes_is_empty() {
    assert_eq!(segment(&toks(&["|", "|"])), Vec::<Vec<String>>::new());
}

#[test]
fn redirection_extracts_file() {
    let shell = unix_shell();
    let (plain, out) = shell.check_redirection(&toks(&["cat", "f.txt", ">", "out.txt"]));
    assert_eq!(plain, toks(&["cat", "f.txt"]));
    assert_eq!(out, Some(String::from("out.txt")));
}

#[test]
fn redirection_absent() {
    let shell = unix_shell();
    let (plain, out) = shell.check_redirection(&toks(&["echo", "hi"]));
    assert_eq!(plain, toks(&["echo", "hi"]));
    assert_eq!(out, None);
}

#[test]
fn redirection_last_occurrence_wins() {
    let shell = unix_shell();
    let (plain, out) = shell.check_redirection(&toks(&["a", ">", "f1", ">", "f2"]));
    assert_eq!(plain, toks(&["a"]));
    assert_eq!(out, Some(String::from("f2")));
}

#[test]
fn redirection_trailing_bare_gt_is_kept() {
    let shell = unix_shell();
    let (plain, out) = shell.check_redirection(&toks(&["cat", ">"]));
    assert_eq!(plain, toks(&["cat", ">"]));
    assert_eq!(out, None);
}
