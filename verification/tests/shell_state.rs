use shell_core::{
    history_file_path, interpret_line, parse_shell_choice, LineAction, PlatformIdentity, Shell,
};

fn shell_with_dirs(platform: PlatformIdentity, current: &str, home: &str) -> Shell {
    Shell::new(
        platform,
        String::from(current),
        String::from(home),
        vec![(String::from("USER"), String::from("alice"))],
        Vec::new(),
        String::from("/home/alice/.shell_history"),
    )
}

#[test]
fn interpret_blank_exit_and_command_lines() {
    assert!(matches!(interpret_line("   "), LineAction::Empty));
    assert!(matches!(interpret_line(""), LineAction::Empty));
    assert!(matches!(interpret_line("exit"), LineAction::Exit));
    assert!(matches!(interpret_line("  exit  "), LineAction::Exit));
    match interpret_line("  ls -l ") {
        LineAction::Run(cmd) => assert_eq!(cmd, "ls -l"),
        _ => panic!("a command line must be run"),
    }
    // `exit 0` is not the bare exit word: it is run like any command.
    assert!(matches!(interpret_line("exit 0"), LineAction::Run(_)));
}

#[test]
fn history_records_only_non_blank_lines() {
    let mut shell = shell_with_dirs(PlatformIdentity::Unix, "/", "/home/alice");
    shell.add_to_history("ls -l");
    shell.add_to_history("   ");
    shell.add_to_history("pwd");
    assert_eq!(shell.history, vec![String::from("ls -l"), String::from("pwd")]);
}

#[test]
fn history_file_name_per_platform() {
    assert_eq!(
        history_file_path(PlatformIdentity::Unix, "/home/alice"),
        "/home/alice/.shell_history"
    );
    assert_eq!(
        history_file_path(PlatformIdentity::MacLike, "/Users/alice"),
        "/Users/alice/.shell_history"
    );
    assert_eq!(
        history_file_path(PlatformIdentity::WindowsLike, "/Users/alice"),
        "/Users/alice/.shell_history.txt"
    );
}

#[test]
fn environment_lookup_finds_first_binding() {
    let shell = shell_with_dirs(PlatformIdentity::Unix, "/", "/home/alice");
    assert_eq!(shell.lookup_env("USER"), Some(&String::from("alice")));
    assert_eq!(shell.lookup_env("NOPE"), None);
}

#[test]
fn display_path_abbreviates_home() {
    let shell = shell_with_dirs(PlatformIdentity::Unix, "/home/alice/work", "/home/alice");
    assert_eq!(shell.format_display_path(), "~/work");
    let outside = shell_with_dirs(PlatformIdentity::Unix, "/etc", "/home/alice");
    assert_eq!(outside.format_display_path(), "/etc");
    let windows = shell_with_dirs(PlatformIdentity::WindowsLike, "C:\\work", "C:\\Users\\alice");
    assert_eq!(windows.format_display_path(), "C:\\work");
}

#[test]
fn prompt_shape_per_platform() {
    let unix = shell_with_dirs(PlatformIdentity::Unix, "/home/alice/work", "/home/alice");
    assert_eq!(unix.render_prompt("alice", "box"), "alice@box:~/work $ ");
    let mac = shell_with_dirs(PlatformIdentity::MacLike, "/Users/alice", "/Users/alice");
    assert_eq!(mac.render_prompt("alice", "mac"), "alice@mac:~ % ");
    let win = shell_with_dirs(PlatformIdentity::WindowsLike, "C:\\work", "C:\\Users\\alice");
    assert_eq!(win.render_prompt("alice", "pc"), "C:\\work> ");
}

#[test]
fn get_prompt_uses_user_from_environment() {
    let unix = shell_with_dirs(PlatformIdentity::Unix, "/home/alice/work", "/home/alice");
    let prompt = unix.get_prompt();
    assert!(prompt.starts_with("alice@"));
    assert!(prompt.ends_with(":~/work $ "));
}

#[test]
fn shell_choice_menu_answers() {
    let d = PlatformIdentity::MacLike;
    assert_eq!(parse_shell_choice("", d), Some(PlatformIdentity::MacLike));
    assert_eq!(parse_shell_choice(" \n", d), Some(PlatformIdentity::MacLike));
    assert_eq!(parse_shell_choice("1\n", d), Some(PlatformIdentity::Unix));
    assert_eq!(parse_shell_choice("2", d), Some(PlatformIdentity::MacLike));
    assert_eq!(parse_shell_choice("3", d), Some(PlatformIdentity::WindowsLike));
    assert_eq!(parse_shell_choice("9", d), None);
    assert_eq!(parse_shell_choice("one", d), None);
}

#[test]
fn normalize_resolves_dots_and_doubled_separators() {
    let shell = shell_with_dirs(PlatformIdentity::Unix, "/", "/home/alice");
    assert_eq!(shell.normalize_path("/a/b/../c"), "/a/c");
    assert_eq!(shell.normalize_path("a/./b//c/"), "a/b/c");
    assert_eq!(shell.normalize_path("/a/.."), "/");
    assert_eq!(shell.normalize_path(""), "");
    // A surplus `..` pops even the root marker, as the component walk does.
    assert_eq!(shell.normalize_path("/a/../../b"), "b");
}

#[test]
fn cd_target_resolution() {
    let shell = shell_with_dirs(PlatformIdentity::Unix, "/home/alice/work", "/home/alice");
    assert_eq!(shell.resolve_cd_target(&[]), "/home/alice");
    assert_eq!(shell.resolve_cd_target(&[String::from("~")]), "/home/alice");
    assert_eq!(shell.resolve_cd_target(&[String::from("$HOME")]), "/home/alice");
    assert_eq!(shell.resolve_cd_target(&[String::from("/etc")]), "/etc");
    assert_eq!(shell.resolve_cd_target(&[String::from("sub/dir")]), "/home/alice/work/sub/dir");
    assert_eq!(shell.resolve_cd_target(&[String::from("..")]), "/home/alice");
    assert_eq!(shell.resolve_cd_target(&[String::from("./sub")]), "/home/alice/work/sub");
}
