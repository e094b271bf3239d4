use shell_core::{PlatformIdentity, Shell};

fn shell_on(platform: PlatformIdentity) -> Shell {
    Shell::new(
        platform,
        String::from("C:\\work"),
        String::from("C:\\Users\\user"),
        Vec::new(),
        Vec::new(),
        String::from("C:\\Users\\user\\.shell_history.txt"),
    )
}

fn toks(words: &[&str]) -> Vec<String> {
    words.iter().map(|w| w.to_string()).collect()
}

#[test]
fn windows_ls_goes_through_cmd() {
    let shell = shell_on(PlatformIdentity::WindowsLike);
    let (name, args) = shell.map_command("ls", &[]);
    assert_eq!(name, "cmd");
    assert_eq!(args, toks(&["/C", "dir", "/W"]));
}

#[test]
fn unix_ls_passes_through_unchanged() {
    let shell = shell_on(PlatformIdentity::Unix);
    let original = toks(&["-l", "/tmp"]);
    let (name, args) = shell.map_command("ls", &original);
    assert_eq!(name, "ls");
    assert_eq!(args, original);
}

#[test]
fn windows_clear_goes_through_cmd() {
    let shell = shell_on(PlatformIdentity::WindowsLike);
    let (name, args) = shell.map_command("clear", &toks(&["ignored"]));
    assert_eq!(name, "cmd");
    assert_eq!(args, toks(&["/C", "cls"]));
}

#[test]
fn windows_renames_keep_arguments() {
    let shell = shell_on(PlatformIdentity::WindowsLike);
    let files = toks(&["a.txt", "b.txt"]);
    assert_eq!(shell.map_command("rm", &files), (String::from("del"), files.clone()));
    assert_eq!(shell.map_command("cp", &files), (String::from("copy"), files.clone()));
    assert_eq!(shell.map_command("mv", &files), (String::from("move"), files.clone()));
    assert_eq!(shell.map_command("cat", &files), (String::from("type"), files.clone()));
    assert_eq!(shell.map_command("grep", &files), (String::from("findstr"), files.clone()));
    assert_eq!(shell.map_command("chmod", &files), (String::from("icacls"), files));
}

#[test]
fn windows_touch_becomes_echo_redirection_idiom() {
    let shell = shell_on(PlatformIdentity::WindowsLike);
    let (name, args) = shell.map_command("touch", &toks(&["new.txt"]));
    assert_eq!(name, "echo");
    assert_eq!(args, toks(&["NUL", ">", "new.txt"]));
}

#[test]
fn windows_ps_becomes_tasklist_without_arguments() {
    let shell = shell_on(PlatformIdentity::WindowsLike);
    let (name, args) = shell.map_command("ps", &toks(&["-e"]));
    assert_eq!(name, "tasklist");
    assert_eq!(args, Vec::<String>::new());
}

#[test]
fn windows_kill_prepends_pid_flag() {
    let shell = shell_on(PlatformIdentity::WindowsLike);
    let (name, args) = shell.map_command("kill", &toks(&["1234"]));
    assert_eq!(name, "taskkill");
    assert_eq!(args, toks(&["/PID", "1234"]));
}

#[test]
fn unix_aliases_for_windows_names() {
    let shell = shell_on(PlatformIdentity::Unix);
    let files = toks(&["a", "b"]);
    assert_eq!(shell.map_command("dir", &files), (String::from("ls"), Vec::<String>::new()));
    assert_eq!(shell.map_command("cls", &files), (String::from("clear"), Vec::<String>::new()));
    assert_eq!(shell.map_command("copy", &files), (String::from("cp"), files.clone()));
    assert_eq!(shell.map_command("move", &files), (String::from("mv"), files.clone()));
    assert_eq!(shell.map_command("del", &files), (String::from("rm"), files.clone()));
    assert_eq!(shell.map_command("type", &files), (String::from("cat"), files.clone()));
    assert_eq!(shell.map_command("findstr", &files), (String::from("grep"), files));
}

#[test]
fn unix_tasklist_becomes_ps_e() {
    let shell = shell_on(PlatformIdentity::Unix);
    let (name, args) = shell.map_command("tasklist", &[]);
    assert_eq!(name, "ps");
    assert_eq!(args, toks(&["-e"]));
}

#[test]
fn unix_taskkill_prepends_force_flag() {
    let shell = shell_on(PlatformIdentity::MacLike);
    let (name, args) = shell.map_command("taskkill", &toks(&["1234"]));
    assert_eq!(name, "kill");
    assert_eq!(args, toks(&["-9", "1234"]));
}

#[test]
fn unknown_name_passes_through_on_both_platforms() {
    let files = toks(&["x"]);
    let unix = shell_on(PlatformIdentity::Unix);
    assert_eq!(unix.map_command("python3", &files), (String::from("python3"), files.clone()));
    let win = shell_on(PlatformIdentity::WindowsLike);
    assert_eq!(win.map_command("python3", &files), (String::from("python3"), files));
}
