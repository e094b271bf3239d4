use shell_core::{Builtin, OutputSink, PlatformIdentity, Shell};

fn unix_shell() -> Shell {
    Shell::new(
        PlatformIdentity::Unix,
        String::from("/home/user/project"),
        String::from("/home/user"),
        vec![
            (String::from("USER"), String::from("user")),
            (String::from("LANG"), String::from("C")),
        ],
        Vec::new(),
        String::from("/home/user/.shell_history"),
    )
}

fn toks(words: &[&str]) -> Vec<String> {
    words.iter().map(|w| w.to_string()).collect()
}

#[test]
fn echo_renders_joined_arguments() {
    let shell = unix_shell();
    assert_eq!(shell.render_builtin(Builtin::Echo, &toks(&["a", "b c"])), Some(String::from("a b c\n")));
    assert_eq!(shell.render_builtin(Builtin::Echo, &[]), Some(String::from("\n")));
}

#[test]
fn pwd_renders_working_directory() {
    let shell = unix_shell();
    assert_eq!(shell.render_builtin(Builtin::Pwd, &[]), Some(String::from("/home/user/project\n")));
}

#[test]
fn env_renders_key_value_lines() {
    let shell = unix_shell();
    assert_eq!(shell.render_builtin(Builtin::Env, &[]), Some(String::from("USER=user\nLANG=C\n")));
}

#[test]
fn filesystem_builtins_render_nothing() {
    let shell = unix_shell();
    assert_eq!(shell.render_builtin(Builtin::Cat, &toks(&["f"])), None);
    assert_eq!(shell.render_builtin(Builtin::Ls, &[]), None);
}

#[test]
fn redirected_echo_sends_terminal_text_to_the_file() {
    let shell = unix_shell();
    let args = toks(&["hi"]);
    let to_terminal = shell.plan_builtin_io(Builtin::Echo, &args, None).unwrap();
    let to_file = shell
        .plan_builtin_io(Builtin::Echo, &args, Some(String::from("out.txt")))
        .unwrap();
    assert_eq!(to_file.text, to_terminal.text);
    assert_eq!(to_file.text, "hi\n");
    assert!(matches!(to_terminal.sink, OutputSink::Terminal));
    match to_file.sink {
        OutputSink::File(f) => assert_eq!(f, "out.txt"),
        OutputSink::Terminal => panic!("redirected output must go to the file"),
    }
}

#[test]
fn which_message_for_builtin_and_missing() {
    let shell = unix_shell();
    assert_eq!(shell.which_message("cd", &None), "cd is a shell builtin");
    assert_eq!(
        shell.which_message("nosuch", &Some(String::from("/usr/bin/nosuch"))),
        "/usr/bin/nosuch"
    );
    assert_eq!(shell.which_message("nosuch", &None), "nosuch: command not found");
}

#[test]
fn type_message_for_builtin_resolved_and_missing() {
    let shell = unix_shell();
    assert_eq!(shell.type_message("history", &None), "history is a shell builtin");
    assert_eq!(shell.type_message("sh", &Some(String::from("/bin/sh"))), "sh is /bin/sh");
    assert_eq!(shell.type_message("nosuch", &None), "nosuch: not found");
}

#[test]
fn which_report_on_a_builtin_does_no_lookup() {
    let shell = unix_shell();
    assert_eq!(shell.which_report("pwd"), "pwd is a shell builtin");
    assert_eq!(shell.type_report("pwd"), "pwd is a shell builtin");
}

#[test]
fn reports_on_a_name_the_host_cannot_resolve() {
    let shell = unix_shell();
    assert_eq!(
        shell.which_report("surely-no-such-command-zzz"),
        "surely-no-such-command-zzz: command not found"
    );
    assert_eq!(
        shell.type_report("surely-no-such-command-zzz"),
        "surely-no-such-command-zzz: not found"
    );
}
