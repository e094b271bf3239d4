use shell_core::{Builtin, CommandPlan, DispatchDecision, PlatformIdentity, Shell};

fn unix_shell() -> Shell {
    Shell::new(
        PlatformIdentity::Unix,
        String::from("/home/user/project"),
        String::from("/home/user"),
        vec![(String::from("USER"), String::from("user"))],
        Vec::new(),
        String::from("/home/user/.shell_history"),
    )
}

fn toks(words: &[&str]) -> Vec<String> {
    words.iter().map(|w| w.to_string()).collect()
}

#[test]
fn registered_builtin_is_never_spawned() {
    let shell = unix_shell();
    match shell.dispatch("pwd", &[], None) {
        DispatchDecision::Builtin { which, args, output_file } => {
            assert_eq!(which, Builtin::Pwd);
            assert_eq!(args, Vec::<String>::new());
            assert_eq!(output_file, None);
        }
        DispatchDecision::External { .. } => panic!("pwd must resolve to the builtin"),
    }
}

#[test]
fn builtin_lookup_covers_registry() {
    assert_eq!(shell_core::builtin_of_name("cd"), Some(Builtin::Cd));
    assert_eq!(shell_core::builtin_of_name("type"), Some(Builtin::TypeCmd));
    assert_eq!(shell_core::builtin_of_name("tail"), Some(Builtin::Tail));
    assert_eq!(shell_core::builtin_of_name("exit"), None);
}

#[test]
fn alias_of_a_builtin_resolves_to_the_builtin() {
    // `dir` is not registered, but it maps to `ls`, which is.
    let shell = unix_shell();
    match shell.dispatch("dir", &toks(&["ignored"]), None) {
        DispatchDecision::Builtin { which, args, .. } => {
            assert_eq!(which, Builtin::Ls);
            assert_eq!(args, Vec::<String>::new());
        }
        DispatchDecision::External { .. } => panic!("dir must resolve to the ls builtin"),
    }
}

#[test]
fn unknown_command_is_spawned_externally() {
    let shell = unix_shell();
    match shell.dispatch("python3", &toks(&["-V"]), Some(String::from("out.txt"))) {
        DispatchDecision::External { name, args, output_file } => {
            assert_eq!(name, "python3");
            assert_eq!(args, toks(&["-V"]));
            assert_eq!(output_file, Some(String::from("out.txt")));
        }
        DispatchDecision::Builtin { .. } => panic!("python3 is no builtin"),
    }
}

#[test]
fn plan_of_blank_line_is_empty() {
    let shell = unix_shell();
    assert!(matches!(shell.plan_command(""), CommandPlan::Empty));
    assert!(matches!(shell.plan_command("   "), CommandPlan::Empty));
}

#[test]
fn plan_of_redirection_without_command_is_empty() {
    let shell = unix_shell();
    assert!(matches!(shell.plan_command("> out.txt"), CommandPlan::Empty));
}

#[test]
fn plan_of_single_command_extracts_redirection() {
    let shell = unix_shell();
    match shell.plan_command("echo hi > out.txt") {
        CommandPlan::Single { decision } => match decision {
            DispatchDecision::Builtin { which, args, output_file } => {
                assert_eq!(which, Builtin::Echo);
                assert_eq!(args, toks(&["hi"]));
                assert_eq!(output_file, Some(String::from("out.txt")));
            }
            DispatchDecision::External { .. } => panic!("echo is a builtin"),
        },
        _ => panic!("a single command must plan as Single"),
    }
}

#[test]
fn three_stage_pipeline_plans_three_processes() {
    let shell = unix_shell();
    match shell.plan_command("a one | b two | c three") {
        CommandPlan::Pipeline { stages } => {
            assert_eq!(stages.len(), 3);
            assert_eq!(stages[0].name, "a");
            assert_eq!(stages[0].args, toks(&["one"]));
            assert!(!stages[0].stdin_from_previous);
            assert!(stages[0].stdout_piped);
            assert!(!stages[0].awaited);
            assert_eq!(stages[1].name, "b");
            assert!(stages[1].stdin_from_previous);
            assert!(stages[1].stdout_piped);
            assert!(!stages[1].awaited);
            assert_eq!(stages[2].name, "c");
            assert!(stages[2].stdin_from_previous);
            assert!(!stages[2].stdout_piped);
            assert!(stages[2].awaited);
        }
        _ => panic!("three segments must plan as a pipeline"),
    }
}

#[test]
fn pipeline_stages_are_mapped_per_platform() {
    let shell = Shell::new(
        PlatformIdentity::Unix,
        String::from("/"),
        String::from("/root"),
        Vec::new(),
        Vec::new(),
        String::from("/root/.shell_history"),
    );
    let segments = vec![toks(&["tasklist"]), toks(&["findstr", "x"])];
    let stages = shell.plan_pipeline(&segments);
    assert_eq!(stages.len(), 2);
    assert_eq!(stages[0].name, "ps");
    assert_eq!(stages[0].args, toks(&["-e"]));
    assert_eq!(stages[1].name, "grep");
    assert_eq!(stages[1].args, toks(&["x"]));
}

#[test]
fn quoted_pipe_stays_inside_its_stage() {
    let shell = unix_shell();
    match shell.plan_command("echo \"a|b\" | grep a") {
        CommandPlan::Pipeline { stages } => {
            assert_eq!(stages.len(), 2);
            assert_eq!(stages[0].name, "echo");
            assert_eq!(stages[0].args, toks(&["a|b"]));
            assert_eq!(stages[1].name, "grep");
            assert_eq!(stages[1].args, toks(&["a"]));
        }
        _ => panic!("one unquoted pipe must make a two-stage pipeline"),
    }
}

#[test]
fn builtins_are_not_consulted_inside_a_pipeline() {
    let shell = unix_shell();
    match shell.plan_command("echo hi | cat") {
        CommandPlan::Pipeline { stages } => {
            assert_eq!(stages.len(), 2);
            assert_eq!(stages[0].name, "echo");
            assert_eq!(stages[1].name, "cat");
        }
        _ => panic!("a piped line must plan as a pipeline"),
    }
}
