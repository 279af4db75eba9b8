//! The command line tools that give access to the clipboard.
use vstd::prelude::*;

use crate::text::{opt_text, same_text};

verus! {

/// a command line invocation used to read or write the clipboard
#[derive(Clone, Copy, Debug)]
pub struct CliCommand {
    pub program: &'static str,
    pub args: &'static [&'static str],
    /// the clipboard text is appended as the final argument
    pub text_arg: bool,
    /// the clipboard text is piped to stdin
    pub text_stdin: bool,
}

/// What a [`CliCommand`] holds.
pub struct CommandView {
    pub program: Seq<char>,
    pub args: Seq<Seq<char>>,
    pub text_arg: bool,
    pub text_stdin: bool,
}

/// The words of an argument list.
pub open spec fn words(args: Seq<&str>) -> Seq<Seq<char>> {
    args.map_values(|arg: &str| arg@)
}

impl View for CliCommand {
    type V = CommandView;

    open spec fn view(&self) -> CommandView {
        CommandView {
            program: self.program@,
            args: words(self.args@),
            text_arg: self.text_arg,
            text_stdin: self.text_stdin,
        }
    }
}

/// a process to run: its program, its arguments, and the text to pipe to its stdin
pub struct Invocation {
    pub program: &'static str,
    pub args: Vec<String>,
    pub stdin: Option<String>,
}

/// The words of an owned argument list.
pub open spec fn owned_words(args: Seq<String>) -> Seq<Seq<char>> {
    args.map_values(|arg: String| arg@)
}

/// The text to hand to a command, an empty one where there is none.
pub open spec fn text_or_empty(text: Option<&str>) -> Seq<char> {
    match text {
        Some(s) => s@,
        None => seq![],
    }
}

impl CommandView {
    /// A command that reads the clipboard.
    pub open spec fn reading(program: Seq<char>, args: Seq<Seq<char>>) -> CommandView {
        CommandView { program, args, text_arg: false, text_stdin: false }
    }

    /// A command that writes the clipboard.
    pub open spec fn writing(
        program: Seq<char>,
        args: Seq<Seq<char>>,
        text_arg: bool,
    ) -> CommandView {
        CommandView { program, args, text_arg, text_stdin: !text_arg }
    }

    /// The command that tells whether the program is there.
    pub open spec fn probe(self) -> CommandView {
        CommandView::reading(
            self.program,
            if self.program == "xclip"@ {
                seq!["-version"@]
            } else if self.program == "pbpaste"@ {
                seq![]
            } else {
                seq!["--version"@]
            },
        )
    }
}

impl CliCommand {
    pub fn get(program: &'static str, args: &'static [&'static str]) -> (command: CliCommand)
        ensures
            command@ == CommandView::reading(program@, words(args@)),
            command.program == program && command.args == args,
            !command.text_arg && !command.text_stdin,
    {
        CliCommand { program, args, text_arg: false, text_stdin: false }
    }

    pub fn set(
        program: &'static str,
        args: &'static [&'static str],
        text_arg: bool,
    ) -> (command: CliCommand)
        ensures
            command@ == CommandView::writing(program@, words(args@), text_arg),
            command.program == program && command.args == args,
            command.text_arg == text_arg && command.text_stdin == !text_arg,
    {
        CliCommand { program, args, text_arg, text_stdin: !text_arg }
    }

    pub fn probe(&self) -> (command: CliCommand)
        ensures
            command@ == self@.probe(),
            command.program == self.program,
            !command.text_arg && !command.text_stdin,
            self.program@ == "xclip"@ ==> command.args@.len() == 1 && command.args@[0]@
                == "-version"@,
            self.program@ == "pbpaste"@ ==> command.args@.len() == 0,
            self.program@ != "xclip"@ && self.program@ != "pbpaste"@ ==> command.args@.len() == 1
                && command.args@[0]@ == "--version"@,
    {
        proof {
            reveal_strlit("xclip");
            reveal_strlit("pbpaste");
            assert("xclip"@.len() != "pbpaste"@.len());
        }
        // xclip uses the single-dash spelling; `--version` exits with
        // an error even though the executable is otherwise usable.
        let args: &'static [&'static str] = if same_text(self.program, "xclip") {
            &["-version"]
        } else if same_text(self.program, "pbpaste") {
            // pbpaste has no version flag. Invoking it without arguments
            // is both its normal read operation and an availability check.
            &[]
        } else {
            &["--version"]
        };
        proof {
            assert(words(args@) =~= self@.probe().args);
        }
        CliCommand { program: self.program, args, text_arg: false, text_stdin: false }
    }

    /// the process that runs the command on `text`
    pub fn invocation(&self, text: Option<&str>) -> (invocation: Invocation)
        ensures
            invocation.program@ == self@.program,
            owned_words(invocation.args@) == if self.text_arg {
                self@.args.push(text_or_empty(text))
            } else {
                self@.args
            },
            opt_text(invocation.stdin) == if !self.text_arg && self.text_stdin {
                Some(text_or_empty(text))
            } else {
                None
            },
            invocation.args@.len() == self.args@.len() + if self.text_arg {
                1int
            } else {
                0
            },
            forall|i: int|
                0 <= i < self.args@.len() ==> (#[trigger] invocation.args@[i])@ == self.args@[i]@,
            text matches Some(s) ==> (self.text_arg ==> invocation.args@.last()@ == s@),
            text is None && self.text_arg ==> invocation.args@.last()@.len() == 0,
            invocation.stdin is Some <==> !self.text_arg && self.text_stdin,
            text matches Some(s) ==> (invocation.stdin matches Some(input) ==> input@ == s@),
            text is None ==> (invocation.stdin matches Some(input) ==> input@.len() == 0),
    {
        let mut args: Vec<String> = Vec::new();
        let mut i: usize = 0;
        while i < self.args.len()
            invariant
                i <= self.args@.len(),
                owned_words(args@) == words(self.args@).take(i as int),
            decreases self.args@.len() - i,
        {
            let ghost before = args@;
            args.push(self.args[i].to_owned());
            proof {
                assert(owned_words(args@) =~= owned_words(before).push(self.args@[i as int]@));
                assert(words(self.args@).take(i + 1) =~= words(self.args@).take(i as int).push(
                    self.args@[i as int]@,
                ));
            }
            i += 1;
        }
        proof {
            assert(words(self.args@).take(i as int) =~= words(self.args@));
        }
        let ghost given = text;
        let text: String = match text {
            Some(text) => text.to_owned(),
            None => String::new(),
        };
        let invocation: Invocation = if self.text_arg {
            let ghost before = args@;
            let ghost word = text@;
            args.push(text);
            proof {
                assert(owned_words(args@) =~= owned_words(before).push(word));
            }
            Invocation { program: self.program, args, stdin: None }
        } else if self.text_stdin {
            Invocation { program: self.program, args, stdin: Some(text) }
        } else {
            Invocation { program: self.program, args, stdin: None }
        };
        proof {
            law_invocation(*self, given, invocation);
        }
        invocation
    }
}

/// How a command is run on a text: with its own arguments, in order, and with the text itself, of
/// whatever length, as one more argument or as the input, whichever the command asks for. Without
/// a text an empty one is handed over. `invocation` is the process that runs `command` on `text`.
pub proof fn law_invocation(command: CliCommand, text: Option<&str>, invocation: Invocation)
    requires
        invocation.program@ == command@.program,
        owned_words(invocation.args@) == if command.text_arg {
            command@.args.push(text_or_empty(text))
        } else {
            command@.args
        },
        opt_text(invocation.stdin) == if !command.text_arg && command.text_stdin {
            Some(text_or_empty(text))
        } else {
            None
        },
    ensures
        invocation.program@ == command.program@,
        invocation.args@.len() == command.args@.len() + if command.text_arg {
            1int
        } else {
            0
        },
        forall|i: int|
            0 <= i < command.args@.len() ==> (#[trigger] invocation.args@[i])@ == command.args@[i]@,
        text matches Some(s) ==> (command.text_arg ==> invocation.args@.last()@ == s@),
        text is None && command.text_arg ==> invocation.args@.last()@.len() == 0,
        invocation.stdin is Some <==> !command.text_arg && command.text_stdin,
        text matches Some(s) ==> (invocation.stdin matches Some(input) ==> input@ == s@),
        text is None ==> (invocation.stdin matches Some(input) ==> input@.len() == 0),
{
    let given = owned_words(invocation.args@);
    assert(given.len() == invocation.args@.len());
    assert forall|i: int| 0 <= i < command.args@.len() implies (#[trigger] invocation.args@[i])@
        == command.args@[i]@ by {
        assert(given[i] == invocation.args@[i]@);
        assert(words(command.args@)[i] == command.args@[i]@);
    }
    if command.text_arg {
        assert(given.last() == invocation.args@.last()@);
    }
}

/// A command is seen as what its fields hold.
pub proof fn law_command_view(command: CliCommand)
    ensures
        command@.program == command.program@,
        command@.args.len() == command.args@.len(),
        forall|i: int|
            0 <= i < command.args@.len() ==> #[trigger] command@.args[i] == command.args@[i]@,
        command@.text_arg == command.text_arg,
        command@.text_stdin == command.text_stdin,
{
}

/// The probe of a command runs the same program, with the argument that makes it tell its version
/// and exit, and hands over no text. `pbpaste` has no such argument.
pub proof fn law_probe(command: CliCommand)
    ensures
        command@.probe().program == command.program@,
        !command@.probe().text_arg && !command@.probe().text_stdin,
        command.program@ == "xclip"@ ==> command@.probe().args == seq!["-version"@],
        command.program@ == "pbpaste"@ ==> command@.probe().args.len() == 0,
        command.program@ != "xclip"@ && command.program@ != "pbpaste"@ ==> command@.probe().args
            == seq!["--version"@],
{
    reveal_strlit("xclip");
    reveal_strlit("pbpaste");
    assert("xclip"@.len() != "pbpaste"@.len());
}

/// clipboard access implemented with the platform's command line tools.
///
/// macOS provides `pbcopy`/`pbpaste`. On Wayland clipboard access is
/// restricted by the compositor: `wl-clipboard` works on compositors that
/// implement (wlr|ext)-data-control, GNOME requires the ClipboardNext
/// extension (which provides `cb`). On X11 we use `xclip`/`xsel`.
#[derive(Clone, Copy, Debug)]
pub struct CliTool {
    pub name: &'static str,
    pub get: CliCommand,
    pub set: CliCommand,
}

/// What a [`CliTool`] holds.
pub struct ToolView {
    pub name: Seq<char>,
    pub get: CommandView,
    pub set: CommandView,
}

impl View for CliTool {
    type V = ToolView;

    open spec fn view(&self) -> ToolView {
        ToolView { name: self.name@, get: self.get@, set: self.set@ }
    }
}

/// What a list of tools holds.
pub open spec fn tool_views(tools: Seq<CliTool>) -> Seq<ToolView> {
    tools.map_values(|tool: CliTool| tool@)
}

/// the platforms that differ in their clipboard tools
#[derive(Clone, Copy, Debug, PartialEq, Eq)]
pub enum Platform {
    MacOs,
    Linux,
    Other,
}

impl ToolView {
    pub open spec fn pasteboard() -> ToolView {
        ToolView {
            name: "pbcopy/pbpaste"@,
            get: CommandView::reading("pbpaste"@, seq![]),
            set: CommandView::writing("pbcopy"@, seq![], false),
        }
    }

    pub open spec fn wl_clipboard() -> ToolView {
        ToolView {
            name: "wl-clipboard"@,
            get: CommandView::reading("wl-paste"@, seq!["-n"@]),
            set: CommandView::writing("wl-copy"@, seq![], false),
        }
    }

    pub open spec fn clipboard_next() -> ToolView {
        ToolView {
            name: "clipboard-next"@,
            get: CommandView::reading("cb"@, seq!["-n"@]),
            set: CommandView::writing("cb"@, seq!["copy"@, "-n"@], true),
        }
    }

    pub open spec fn xclip() -> ToolView {
        ToolView {
            name: "xclip"@,
            get: CommandView::reading(
                "xclip"@,
                seq!["-selection"@, "clipboard"@, "-o"@, "-target"@, "UTF8_STRING"@],
            ),
            set: CommandView::writing(
                "xclip"@,
                seq!["-selection"@, "clipboard"@, "-target"@, "UTF8_STRING"@],
                false,
            ),
        }
    }

    pub open spec fn xsel() -> ToolView {
        ToolView {
            name: "xsel"@,
            get: CommandView::reading("xsel"@, seq!["--clipboard"@, "--output"@]),
            set: CommandView::writing("xsel"@, seq!["--clipboard"@, "--input"@], false),
        }
    }
}

/// The tools worth trying, the preferred one first.
pub open spec fn candidates(platform: Platform, wayland: bool, gnome: bool, x11: bool) -> Seq<
    ToolView,
> {
    let x11_tools = if x11 {
        seq![ToolView::xclip(), ToolView::xsel()]
    } else {
        seq![]
    };
    match platform {
        Platform::MacOs => seq![ToolView::pasteboard()],
        Platform::Linux => if gnome {
            seq![ToolView::clipboard_next()] + x11_tools
        } else if wayland {
            seq![ToolView::wl_clipboard(), ToolView::clipboard_next()] + x11_tools
        } else {
            x11_tools
        },
        Platform::Other => seq![],
    }
}

/// The lower case of an ASCII letter, any other character as it is.
pub open spec fn ascii_lower(c: char) -> char {
    if 'A' <= c <= 'Z' {
        ((c as u32) + 32) as char
    } else {
        c
    }
}

/// True when two texts differ at most in the case of ASCII letters.
pub open spec fn same_ignoring_ascii_case(a: Seq<char>, b: Seq<char>) -> bool {
    &&& a.len() == b.len()
    &&& forall|i: int| #![trigger a[i]] 0 <= i < a.len() ==> ascii_lower(a[i]) == ascii_lower(b[i])
}

/// True when `list` from `start` to `end` is one whole entry of a list separated by colons.
pub open spec fn is_entry(list: Seq<char>, start: int, end: int) -> bool {
    &&& 0 <= start <= end <= list.len()
    &&& start == 0 || list[start - 1] == ':'
    &&& end == list.len() || list[end] == ':'
    &&& forall|i: int| start <= i < end ==> list[i] != ':'
}

/// True when the entry from `start` to `end` names the GNOME desktop.
pub open spec fn entry_is_gnome(list: Seq<char>, start: int, end: int) -> bool {
    is_entry(list, start, end) && same_ignoring_ascii_case(list.subrange(start, end), "GNOME"@)
}

/// True when a list of desktop names separated by colons has GNOME among its entries.
pub open spec fn names_gnome(list: Seq<char>) -> bool {
    exists|start: int, end: int| #[trigger] entry_is_gnome(list, start, end)
}

/// True when a character is a given letter in whatever case.
fn is_letter(c: char, upper: char, lower: char) -> (same: bool)
    requires
        'A' <= upper <= 'Z',
        lower as u32 == upper as u32 + 32,
    ensures
        same == (ascii_lower(c) == ascii_lower(upper)),
{
    c == upper || c == lower
}

/// True when the characters from `start` to `end` spell GNOME in whatever case.
fn spells_gnome(list: &Vec<char>, start: usize, end: usize) -> (spelled: bool)
    requires
        start <= end <= list@.len(),
    ensures
        spelled == same_ignoring_ascii_case(list@.subrange(start as int, end as int), "GNOME"@),
{
    let ghost entry = list@.subrange(start as int, end as int);
    proof {
        reveal_strlit("GNOME");
        assert(entry.len() == end - start);
    }
    if end - start != 5 {
        return false;
    }
    let spelled = is_letter(list[start], 'G', 'g') && is_letter(list[start + 1], 'N', 'n')
        && is_letter(list[start + 2], 'O', 'o') && is_letter(list[start + 3], 'M', 'm')
        && is_letter(list[start + 4], 'E', 'e');
    proof {
        let name = "GNOME"@;
        assert(entry[0] == list@[start + 0] && entry[1] == list@[start + 1] && entry[2]
            == list@[start + 2] && entry[3] == list@[start + 3] && entry[4] == list@[start + 4]);
        assert(name[0] == 'G' && name[1] == 'N' && name[2] == 'O' && name[3] == 'M' && name[4]
            == 'E');
    }
    spelled
}

/// true if the desktop names in `list`, separated by colons, have GNOME among them
pub fn is_gnome(list: &str) -> (gnome: bool)
    ensures
        gnome == names_gnome(list@),
{
    let mut chars: Vec<char> = Vec::new();
    for c in it: list.chars()
        invariant
            it.seq() == list@,
            chars@ == list@.take(it.index()),
    {
        chars.push(c);
        proof {
            assert(list@.take(it.index() + 1) =~= list@.take(it.index()).push(c));
        }
    }
    proof {
        assert(chars@ =~= list@);
    }
    let mut start: usize = 0;
    let mut end: usize = 0;
    loop
        invariant
            chars@ == list@,
            start <= end <= chars@.len(),
            start == 0 || list@[start - 1] == ':',
            forall|i: int| start <= i < end ==> list@[i] != ':',
            forall|i: int, j: int| i < start ==> !#[trigger] entry_is_gnome(list@, i, j),
        decreases chars@.len() - end,
    {
        if end == chars.len() || chars[end] == ':' {
            if spells_gnome(&chars, start, end) {
                proof {
                    assert(entry_is_gnome(list@, start as int, end as int));
                }
                return true;
            }
            proof {
                assert forall|i: int, j: int| i <= end implies !#[trigger] entry_is_gnome(
                    list@,
                    i,
                    j,
                ) by {
                    if is_entry(list@, i, j) && i >= start {
                        // an entry begins at its start and ends at its first colon
                        assert(i == start);
                        assert(j == end);
                    }
                }
            }
            if end == chars.len() {
                return false;
            }
            end += 1;
            start = end;
        } else {
            end += 1;
        }
    }
}

fn pasteboard() -> (tool: CliTool)
    ensures
        tool@ == ToolView::pasteboard(),
{
    let tool = CliTool {
        name: "pbcopy/pbpaste",
        get: CliCommand::get("pbpaste", &[]),
        set: CliCommand::set("pbcopy", &[], false),
    };
    proof {
        assert(tool@.get.args =~= ToolView::pasteboard().get.args);
        assert(tool@.set.args =~= ToolView::pasteboard().set.args);
    }
    tool
}

fn wl_clipboard() -> (tool: CliTool)
    ensures
        tool@ == ToolView::wl_clipboard(),
{
    let tool = CliTool {
        name: "wl-clipboard",
        get: CliCommand::get("wl-paste", &["-n"]),
        set: CliCommand::set("wl-copy", &[], false),
    };
    proof {
        assert(tool@.get.args =~= ToolView::wl_clipboard().get.args);
        assert(tool@.set.args =~= ToolView::wl_clipboard().set.args);
    }
    tool
}

// GNOME provides no data-control protocol. ClipboardNext
// (shell extension) exposes the `cb` CLI which proxies
// clipboard access through the extension.
fn clipboard_next() -> (tool: CliTool)
    ensures
        tool@ == ToolView::clipboard_next(),
{
    let tool = CliTool {
        name: "clipboard-next",
        get: CliCommand::get("cb", &["-n"]),
        set: CliCommand::set("cb", &["copy", "-n"], true),
    };
    proof {
        assert(tool@.get.args =~= ToolView::clipboard_next().get.args);
        assert(tool@.set.args =~= ToolView::clipboard_next().set.args);
    }
    tool
}

// Do not fall back to X11's legacy STRING target: it is
// single-byte text and turns UTF-8 Cyrillic into mojibake on a
// receiving native clipboard (such as macOS pasteboard).
fn xclip() -> (tool: CliTool)
    ensures
        tool@ == ToolView::xclip(),
{
    let tool = CliTool {
        name: "xclip",
        get: CliCommand::get(
            "xclip",
            &["-selection", "clipboard", "-o", "-target", "UTF8_STRING"],
        ),
        set: CliCommand::set(
            "xclip",
            &["-selection", "clipboard", "-target", "UTF8_STRING"],
            false,
        ),
    };
    proof {
        assert(tool@.get.args =~= ToolView::xclip().get.args);
        assert(tool@.set.args =~= ToolView::xclip().set.args);
    }
    tool
}

fn xsel() -> (tool: CliTool)
    ensures
        tool@ == ToolView::xsel(),
{
    let tool = CliTool {
        name: "xsel",
        get: CliCommand::get("xsel", &["--clipboard", "--output"]),
        set: CliCommand::set("xsel", &["--clipboard", "--input"], false),
    };
    proof {
        assert(tool@.get.args =~= ToolView::xsel().get.args);
        assert(tool@.set.args =~= ToolView::xsel().set.args);
    }
    tool
}

/// the clipboard tools to try, in this order
///
/// `wayland` and `x11` tell whether a display of that kind is there, `desktop` lists the names of
/// the desktop, if it has any.
pub fn tool_candidates(
    platform: Platform,
    wayland: bool,
    desktop: Option<&str>,
    x11: bool,
) -> (tools: Vec<CliTool>)
    ensures
        tool_views(tools@) == candidates(
            platform,
            wayland,
            desktop matches Some(list) && names_gnome(list@),
            x11,
        ),
{
    let gnome: bool = match desktop {
        Some(list) => is_gnome(list),
        None => false,
    };
    let mut tools: Vec<CliTool> = Vec::new();
    match platform {
        Platform::MacOs => tools.push(pasteboard()),
        Platform::Linux => {
            // on GNOME, wl-clipboard is present on many systems but cannot
            // access the clipboard - prefer the GNOME-specific / XWayland bridges
            if gnome {
                tools.push(clipboard_next());
                if x11 {
                    tools.push(xclip());
                    tools.push(xsel());
                }
            } else if wayland {
                tools.push(wl_clipboard());
                tools.push(clipboard_next());
                if x11 {
                    tools.push(xclip());
                    tools.push(xsel());
                }
            } else if x11 {
                tools.push(xclip());
                tools.push(xsel());
            }
        },
        Platform::Other => {},
    }
    proof {
        assert(tool_views(tools@) =~= candidates(platform, wayland, gnome, x11));
    }
    tools
}

/// Every candidate reads without being handed a text, and is handed the text to write in exactly
/// one way.
pub proof fn law_candidate_commands(
    platform: Platform,
    wayland: bool,
    gnome: bool,
    x11: bool,
    k: int,
)
    requires
        0 <= k < candidates(platform, wayland, gnome, x11).len(),
    ensures
        ({
            let tool = candidates(platform, wayland, gnome, x11)[k];
            &&& !tool.get.text_arg && !tool.get.text_stdin
            &&& tool.set.text_arg != tool.set.text_stdin
        }),
{
}

/// On GNOME `wl-clipboard` is never tried, and `xclip` and `xsel` are tried only where there is an
/// X11 display.
pub proof fn law_candidates_fit_the_desktop(
    platform: Platform,
    wayland: bool,
    gnome: bool,
    x11: bool,
    k: int,
)
    requires
        0 <= k < candidates(platform, wayland, gnome, x11).len(),
    ensures
        ({
            let name = candidates(platform, wayland, gnome, x11)[k].name;
            &&& gnome || !wayland ==> name != "wl-clipboard"@
            &&& !x11 ==> name != "xclip"@ && name != "xsel"@
        }),
{
    lemma_tool_names();
}

/// No tool is tried twice.
pub proof fn law_candidates_distinct(
    platform: Platform,
    wayland: bool,
    gnome: bool,
    x11: bool,
    j: int,
    k: int,
)
    requires
        0 <= j < k < candidates(platform, wayland, gnome, x11).len(),
    ensures
        candidates(platform, wayland, gnome, x11)[j].name != candidates(
            platform,
            wayland,
            gnome,
            x11,
        )[k].name,
{
    lemma_tool_names();
}

/// The names of the tools differ, by their lengths or their first characters.
pub(crate) proof fn lemma_tool_names()
    ensures
        "pbcopy/pbpaste"@.len() == 14,
        "wl-clipboard"@.len() == 12,
        "clipboard-next"@.len() == 14,
        "xclip"@.len() == 5,
        "xsel"@.len() == 4,
        "pbcopy/pbpaste"@[0] == 'p',
        "clipboard-next"@[0] == 'c',
{
    reveal_strlit("pbcopy/pbpaste");
    reveal_strlit("wl-clipboard");
    reveal_strlit("clipboard-next");
    reveal_strlit("xclip");
    reveal_strlit("xsel");
}

/// the search for a tool that works: the candidates are probed one after the other
pub struct Detection {
    candidates: Vec<CliTool>,
    next: usize,
}

/// How far a search has come.
pub struct DetectionView {
    pub candidates: Seq<ToolView>,
    pub next: nat,
}

impl View for Detection {
    type V = DetectionView;

    closed spec fn view(&self) -> DetectionView {
        DetectionView { candidates: tool_views(self.candidates@), next: self.next as nat }
    }
}

/// True when a probe, of which `exit` says whether it ran and then whether it succeeded, finds its
/// tool working.
pub open spec fn probe_succeeded(exit: Option<bool>) -> bool {
    exit == Some(true)
}

impl DetectionView {
    pub open spec fn wf(self) -> bool {
        self.next <= self.candidates.len()
    }

    /// The candidate to probe, none if all have failed.
    pub open spec fn candidate(self) -> Option<ToolView> {
        if self.next < self.candidates.len() {
            Some(self.candidates[self.next as int])
        } else {
            None
        }
    }

    /// The search and the tool it has found after the probe of its current candidate.
    pub open spec fn probed(self, exit: Option<bool>) -> (DetectionView, Option<ToolView>) {
        if self.next >= self.candidates.len() {
            (self, None)
        } else if probe_succeeded(exit) {
            (self, Some(self.candidates[self.next as int]))
        } else {
            (DetectionView { next: self.next + 1, ..self }, None)
        }
    }

    /// The search after a sequence of probes.
    pub open spec fn run(self, exits: Seq<Option<bool>>) -> DetectionView
        decreases exits.len(),
    {
        if exits.len() == 0 {
            self
        } else {
            self.run(exits.drop_last()).probed(exits.last()).0
        }
    }
}

/// The tool that an optional [`CliTool`] holds.
pub open spec fn opt_tool(tool: Option<CliTool>) -> Option<ToolView> {
    match tool {
        Some(tool) => Some(tool@),
        None => None,
    }
}

impl Detection {
    /// starts a search among `candidates`
    pub fn new(candidates: Vec<CliTool>) -> (detection: Detection)
        ensures
            detection@ == (DetectionView { candidates: tool_views(candidates@), next: 0 }),
            detection@.wf(),
    {
        Detection { candidates, next: 0 }
    }

    /// the current candidate, none if all have failed
    pub fn candidate(&self) -> (tool: Option<CliTool>)
        ensures
            opt_tool(tool) == self@.candidate(),
    {
        if self.next < self.candidates.len() {
            Some(self.candidates[self.next])
        } else {
            None
        }
    }

    /// the command that probes the current candidate, none if all have failed
    pub fn probe(&self) -> (command: Option<CliCommand>)
        ensures
            command is Some <==> self@.next < self@.candidates.len(),
            command matches Some(command) ==> command@
                == self@.candidates[self@.next as int].get.probe(),
    {
        match self.candidate() {
            Some(tool) => Some(tool.get.probe()),
            None => None,
        }
    }

    /// takes the exit of the probe, none if it could not be run; returns the tool if it works
    pub fn probed(&mut self, exit: Option<bool>) -> (tool: Option<CliTool>)
        ensures
            final(self)@ == old(self)@.probed(exit).0,
            opt_tool(tool) == old(self)@.probed(exit).1,
            old(self)@.wf() ==> final(self)@.wf(),
    {
        if self.next >= self.candidates.len() {
            return None;
        }
        match exit {
            Some(true) => Some(self.candidates[self.next]),
            _ => {
                self.next += 1;
                None
            },
        }
    }
}

/// The search finds the first candidate whose probe succeeds, and nothing if none does: as long as
/// probes fail, the next candidate is the one after those that failed.
pub proof fn law_first_working_tool(candidates: Seq<ToolView>, exits: Seq<Option<bool>>)
    requires
        exits.len() <= candidates.len(),
        forall|i: int|
            #![trigger exits[i]]
            0 <= i < exits.len() ==> !probe_succeeded(exits[i]),
    ensures
        ({
            let start = DetectionView { candidates, next: 0 };
            let after = start.run(exits);
            &&& after == (DetectionView { candidates, next: exits.len() })
            &&& exits.len() < candidates.len() ==> after.probed(Some(true)).1 == Some(
                candidates[exits.len() as int],
            )
            &&& exits.len() == candidates.len() ==> forall|exit: Option<bool>|
                (#[trigger] after.probed(exit)).1 is None
        }),
    decreases exits.len(),
{
    if exits.len() > 0 {
        let before = exits.drop_last();
        assert forall|i: int| #![trigger before[i]] 0 <= i < before.len() implies !probe_succeeded(
            before[i],
        ) by {
            assert(before[i] == exits[i]);
        }
        law_first_working_tool(candidates, before);
        assert(exits.last() == exits[exits.len() - 1]);
    }
}

} // verus!
