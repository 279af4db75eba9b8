use lan_mouse_proto::tools::{is_gnome, tool_candidates, CliCommand, Detection, Platform};

fn names(platform: Platform, wayland: bool, desktop: Option<&str>, x11: bool) -> Vec<&'static str> {
    tool_candidates(platform, wayland, desktop, x11)
        .iter()
        .map(|tool| tool.name)
        .collect()
}

#[test]
fn candidates_by_platform() {
    assert_eq!(names(Platform::MacOs, true, Some("GNOME"), true), ["pbcopy/pbpaste"]);
    assert!(names(Platform::Other, true, Some("GNOME"), true).is_empty());
}

#[test]
fn candidates_on_linux() {
    let linux = Platform::Linux;
    assert_eq!(names(linux, true, Some("GNOME"), false), ["clipboard-next"]);
    assert_eq!(
        names(linux, true, Some("ubuntu:GNOME"), true),
        ["clipboard-next", "xclip", "xsel"]
    );
    assert_eq!(
        names(linux, true, Some("KDE"), false),
        ["wl-clipboard", "clipboard-next"]
    );
    assert_eq!(
        names(linux, true, None, true),
        ["wl-clipboard", "clipboard-next", "xclip", "xsel"]
    );
    assert_eq!(names(linux, false, Some("XFCE"), true), ["xclip", "xsel"]);
    assert!(names(linux, false, None, false).is_empty());
}

#[test]
fn candidate_commands() {
    let tools = tool_candidates(Platform::Linux, true, None, true);
    assert_eq!(tools[0].get.program, "wl-paste");
    assert_eq!(tools[0].get.args, ["-n"]);
    assert_eq!(tools[0].set.program, "wl-copy");
    assert!(tools[0].set.args.is_empty());
    assert_eq!(tools[1].get.program, "cb");
    assert_eq!(tools[1].get.args, ["-n"]);
    assert_eq!(tools[1].set.program, "cb");
    assert_eq!(tools[1].set.args, ["copy", "-n"]);
    assert!(tools[1].set.text_arg && !tools[1].set.text_stdin);
    assert_eq!(tools[2].get.program, "xclip");
    assert_eq!(
        tools[2].get.args,
        ["-selection", "clipboard", "-o", "-target", "UTF8_STRING"]
    );
    assert_eq!(
        tools[2].set.args,
        ["-selection", "clipboard", "-target", "UTF8_STRING"]
    );
    assert!(!tools[2].set.text_arg && tools[2].set.text_stdin);
    assert_eq!(tools[3].get.args, ["--clipboard", "--output"]);
    assert_eq!(tools[3].set.args, ["--clipboard", "--input"]);
    let mac = tool_candidates(Platform::MacOs, false, None, false);
    assert_eq!(mac[0].get.program, "pbpaste");
    assert_eq!(mac[0].set.program, "pbcopy");
    for tool in tools.iter().chain(mac.iter()) {
        assert!(!tool.get.text_arg && !tool.get.text_stdin);
        assert!(tool.set.text_arg != tool.set.text_stdin);
    }
}

#[test]
fn gnome_is_an_entry_of_the_list() {
    assert!(is_gnome("GNOME"));
    assert!(is_gnome("gnome"));
    assert!(is_gnome("ubuntu:GnOmE"));
    assert!(is_gnome("GNOME:Classic"));
    assert!(is_gnome("a::gnome:b"));
    assert!(!is_gnome(""));
    assert!(!is_gnome(":"));
    assert!(!is_gnome("GNOME-Flashback"));
    assert!(!is_gnome("xGNOME"));
    assert!(!is_gnome("GN:OME"));
    assert!(!is_gnome("gnomé"));
}

#[test]
fn probes() {
    let xclip = CliCommand::get("xclip", &["-o"]).probe();
    assert_eq!(xclip.program, "xclip");
    assert_eq!(xclip.args, ["-version"]);
    let pbpaste = CliCommand::get("pbpaste", &[]).probe();
    assert!(pbpaste.args.is_empty());
    let other = CliCommand::set("xclip2", &["a"], true).probe();
    assert_eq!(other.program, "xclip2");
    assert_eq!(other.args, ["--version"]);
    assert!(!other.text_arg && !other.text_stdin);
}

#[test]
fn invocations() {
    let get = CliCommand::get("tool", &["-n"]).invocation(None);
    assert_eq!(get.program, "tool");
    assert_eq!(get.args, ["-n"]);
    assert_eq!(get.stdin, None);

    let by_arg = CliCommand::set("tool", &["copy", "-n"], true).invocation(Some("text"));
    assert_eq!(by_arg.args, ["copy", "-n", "text"]);
    assert_eq!(by_arg.stdin, None);

    let by_stdin = CliCommand::set("tool", &["-i"], false).invocation(Some("text"));
    assert_eq!(by_stdin.args, ["-i"]);
    assert_eq!(by_stdin.stdin.as_deref(), Some("text"));

    let without = CliCommand::set("tool", &[], true).invocation(None);
    assert_eq!(without.args, [""]);
    let without = CliCommand::set("tool", &[], false).invocation(None);
    assert_eq!(without.stdin.as_deref(), Some(""));
}

#[test]
fn first_working_tool_is_taken() {
    let mut detection = Detection::new(tool_candidates(Platform::Linux, true, None, true));
    assert_eq!(detection.probe().unwrap().program, "wl-paste");
    // could not be started
    assert!(detection.probed(None).is_none());
    assert_eq!(detection.probe().unwrap().program, "cb");
    // exited with an error
    assert!(detection.probed(Some(false)).is_none());
    let probe = detection.probe().unwrap();
    assert_eq!(probe.program, "xclip");
    assert_eq!(probe.args, ["-version"]);
    assert_eq!(detection.probed(Some(true)).unwrap().name, "xclip");
}

#[test]
fn no_tool_works() {
    let mut detection = Detection::new(tool_candidates(Platform::MacOs, false, None, false));
    assert!(detection.probed(Some(false)).is_none());
    assert!(detection.probe().is_none());
    assert!(detection.probed(Some(true)).is_none());
}
