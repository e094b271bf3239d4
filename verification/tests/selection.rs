use shell_core::{filter_names, grep_lines, head_lines, str_contains, tail_lines};

fn lines(words: &[&str]) -> Vec<String> {
    words.iter().map(|w| w.to_string()).collect()
}

#[test]
fn head_takes_the_first_lines() {
    let all = lines(&["a", "b", "c", "d"]);
    assert_eq!(head_lines(&all, 2), lines(&["a", "b"]));
    assert_eq!(head_lines(&all, 10), all);
    assert_eq!(head_lines(&all, 0), Vec::<String>::new());
}

#[test]
fn tail_takes_the_last_lines() {
    let all = lines(&["a", "b", "c", "d"]);
    assert_eq!(tail_lines(&all, 2), lines(&["c", "d"]));
    assert_eq!(tail_lines(&all, 10), all);
    assert_eq!(tail_lines(&all, 0), Vec::<String>::new());
}

#[test]
fn grep_keeps_lines_containing_the_pattern() {
    let all = lines(&["alpha", "beta", "gamma", "abc"]);
    assert_eq!(grep_lines(&all, "a"), all);
    assert_eq!(grep_lines(&all, "am"), lines(&["gamma"]));
    assert_eq!(grep_lines(&all, "zz"), Vec::<String>::new());
    assert_eq!(grep_lines(&all, ""), all);
}

#[test]
fn substring_search_is_exact() {
    assert!(str_contains("hello world", "lo w"));
    assert!(str_contains("hello", ""));
    assert!(!str_contains("hello", "hellos"));
    assert!(!str_contains("", "a"));
}

#[test]
fn find_filter_with_a_glob_pattern() {
    let names = lines(&["a.txt", "b.rs", "c.txt", "d"]);
    let kept = filter_names(&names, &Some(String::from("*.txt")));
    assert_eq!(kept, lines(&["a.txt", "c.txt"]));
    let single = filter_names(&names, &Some(String::from("?.rs")));
    assert_eq!(single, lines(&["b.rs"]));
}

#[test]
fn find_filter_without_a_pattern_keeps_everything() {
    let names = lines(&["a.txt", "b.rs"]);
    assert_eq!(filter_names(&names, &None), names);
}

#[test]
fn find_filter_with_a_rejected_pattern_keeps_everything() {
    let names = lines(&["a.txt", "b.rs"]);
    // `a[` does not compile as a glob pattern; the filter then keeps all.
    assert_eq!(filter_names(&names, &Some(String::from("a["))), names);
}
