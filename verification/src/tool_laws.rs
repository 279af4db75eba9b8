//! Which tools are offered, with which commands, and which of them is found.
use vstd::prelude::*;

use crate::tools::{
    candidates, entry_is_gnome, is_entry, law_command_view, lemma_tool_names, names_gnome,
    opt_tool, probe_succeeded, same_ignoring_ascii_case, tool_views, CliCommand, CliTool,
    DetectionView, Platform, ToolView,
};

verus! {

/// True when the words of `args` are `words`.
pub open spec fn has_words(args: Seq<&str>, words: Seq<Seq<char>>) -> bool {
    &&& args.len() == words.len()
    &&& forall|i: int| 0 <= i < args.len() ==> (#[trigger] args[i])@ == words[i]
}

/// A tool is seen as what its fields hold, a list of tools as the tools in it, one by one.
pub proof fn law_tool_views(tools: Seq<CliTool>)
    ensures
        tool_views(tools).len() == tools.len(),
        forall|k: int|
            #![trigger tools[k]]
            0 <= k < tools.len() ==> {
                &&& tool_views(tools)[k] == tools[k]@
                &&& tools[k]@.name == tools[k].name@
                &&& tools[k]@.get == tools[k].get@
                &&& tools[k]@.set == tools[k].set@
            },
{
}

/// An optional tool is seen as the tool that it holds, if it holds one.
pub proof fn law_opt_tool(tool: Option<CliTool>)
    ensures
        match tool {
            Some(found) => opt_tool(tool) == Some(found@),
            None => opt_tool(tool) is None,
        },
{
}

/// Two lists of words that are seen as the same have the same words.
proof fn lemma_words(command: CliCommand, words: Seq<Seq<char>>)
    requires
        command@.args == words,
    ensures
        has_words(command.args@, words),
{
    law_command_view(command);
}

/// Which tools are offered, and in which order: on macOS the pasteboard; on Linux with an X11
/// display always `xclip` and then `xsel`, after all others; before these on GNOME, with or without
/// Wayland, `clipboard-next`, and on another desktop with Wayland `wl-clipboard` and then
/// `clipboard-next`; elsewhere none.
pub proof fn law_offered_tools(
    tools: Seq<CliTool>,
    platform: Platform,
    wayland: bool,
    gnome: bool,
    x11: bool,
)
    requires
        tool_views(tools) == candidates(platform, wayland, gnome, x11),
    ensures
        platform is MacOs ==> tools.len() == 1 && tools[0].name@ == "pbcopy/pbpaste"@,
        platform is Other ==> tools.len() == 0,
        platform is Linux ==> tools.len() == (if gnome {
            1int
        } else if wayland {
            2
        } else {
            0
        }) + (if x11 {
            2int
        } else {
            0
        }),
        platform is Linux && gnome ==> tools[0].name@ == "clipboard-next"@,
        platform is Linux && wayland && !gnome ==> tools[0].name@ == "wl-clipboard"@
            && tools[1].name@ == "clipboard-next"@,
        platform is Linux && x11 ==> tools[tools.len() - 2].name@ == "xclip"@ && tools[tools.len()
            - 1].name@ == "xsel"@,
{
    law_tool_views(tools);
    let n = tools.len() as int;
    if n > 0 {
        assert(tools[0]@ == tool_views(tools)[0]);
    }
    if n > 1 {
        assert(tools[1]@ == tool_views(tools)[1]);
        assert(tools[n - 2]@ == tool_views(tools)[n - 2]);
        assert(tools[n - 1]@ == tool_views(tools)[n - 1]);
    }
}

/// The commands of each tool that is offered: the program and the arguments with which it reads
/// the clipboard, those with which it writes it, and how the text to write is handed over.
pub proof fn law_offered_commands(
    tools: Seq<CliTool>,
    platform: Platform,
    wayland: bool,
    gnome: bool,
    x11: bool,
    k: int,
)
    requires
        tool_views(tools) == candidates(platform, wayland, gnome, x11),
        0 <= k < tools.len(),
    ensures
        ({
            let tool = tools[k];
            &&& !tool.get.text_arg && !tool.get.text_stdin
            &&& tool.set.text_stdin == !tool.set.text_arg
            &&& tool.name@ == "pbcopy/pbpaste"@ ==> {
                &&& tool.get.program@ == "pbpaste"@ && tool.get.args@.len() == 0
                &&& tool.set.program@ == "pbcopy"@ && tool.set.args@.len() == 0
                &&& tool.set.text_stdin
            }
            &&& tool.name@ == "wl-clipboard"@ ==> {
                &&& tool.get.program@ == "wl-paste"@ && has_words(tool.get.args@, seq!["-n"@])
                &&& tool.set.program@ == "wl-copy"@ && tool.set.args@.len() == 0
                &&& tool.set.text_stdin
            }
            &&& tool.name@ == "clipboard-next"@ ==> {
                &&& tool.get.program@ == "cb"@ && has_words(tool.get.args@, seq!["-n"@])
                &&& tool.set.program@ == "cb"@ && has_words(tool.set.args@, seq!["copy"@, "-n"@])
                &&& tool.set.text_arg
            }
            &&& tool.name@ == "xclip"@ ==> {
                &&& tool.get.program@ == "xclip"@ && has_words(
                    tool.get.args@,
                    seq!["-selection"@, "clipboard"@, "-o"@, "-target"@, "UTF8_STRING"@],
                )
                &&& tool.set.program@ == "xclip"@ && has_words(
                    tool.set.args@,
                    seq!["-selection"@, "clipboard"@, "-target"@, "UTF8_STRING"@],
                )
                &&& tool.set.text_stdin
            }
            &&& tool.name@ == "xsel"@ ==> {
                &&& tool.get.program@ == "xsel"@ && has_words(
                    tool.get.args@,
                    seq!["--clipboard"@, "--output"@],
                )
                &&& tool.set.program@ == "xsel"@ && has_words(
                    tool.set.args@,
                    seq!["--clipboard"@, "--input"@],
                )
                &&& tool.set.text_stdin
            }
        }),
{
    law_tool_views(tools);
    lemma_tool_names();
    let tool = tools[k];
    assert(tool@ == tool_views(tools)[k]);
    law_command_view(tool.get);
    law_command_view(tool.set);
    lemma_words(tool.get, tool@.get.args);
    lemma_words(tool.set, tool@.set.args);
    assert(tool@ == ToolView::pasteboard() || tool@ == ToolView::wl_clipboard() || tool@
        == ToolView::clipboard_next() || tool@ == ToolView::xclip() || tool@ == ToolView::xsel());
}

/// A single name, without a colon, names GNOME if and only if it is these five letters, each in
/// whatever case.
pub proof fn law_gnome_by_itself(name: Seq<char>)
    requires
        forall|i: int| 0 <= i < name.len() ==> name[i] != ':',
    ensures
        names_gnome(name) <==> {
            &&& name.len() == 5
            &&& name[0] == 'G' || name[0] == 'g'
            &&& name[1] == 'N' || name[1] == 'n'
            &&& name[2] == 'O' || name[2] == 'o'
            &&& name[3] == 'M' || name[3] == 'm'
            &&& name[4] == 'E' || name[4] == 'e'
        },
{
    reveal_strlit("GNOME");
    let n = name.len() as int;
    let gnome = "GNOME"@;
    assert(gnome[0] == 'G' && gnome[1] == 'N' && gnome[2] == 'O' && gnome[3] == 'M' && gnome[4]
        == 'E');
    assert(name.subrange(0, n) =~= name);
    assert(is_entry(name, 0, n));
    if names_gnome(name) {
        let (start, end) = choose|start: int, end: int| #[trigger]
            entry_is_gnome(name, start, end);
        assert(start == 0 && end == n);
        assert(same_ignoring_ascii_case(name, gnome));
        assert(name[0] == name[0] && name[1] == name[1] && name[2] == name[2] && name[3] == name[3]
            && name[4] == name[4]);
    }
    if name.len() == 5 && (name[0] == 'G' || name[0] == 'g') && (name[1] == 'N' || name[1] == 'n')
        && (name[2] == 'O' || name[2] == 'o') && (name[3] == 'M' || name[3] == 'm') && (name[4]
        == 'E' || name[4] == 'e') {
        assert(same_ignoring_ascii_case(name, gnome));
        assert(entry_is_gnome(name, 0, n));
    }
}

/// Two lists joined by a colon name GNOME if and only if one of them does.
pub proof fn law_gnome_in_a_list(front: Seq<char>, back: Seq<char>)
    ensures
        names_gnome(front + seq![':'] + back) <==> names_gnome(front) || names_gnome(back),
{
    let list = front + seq![':'] + back;
    let n = front.len() as int;
    assert(list[n] == ':');
    assert forall|i: int| 0 <= i < n implies list[i] == front[i] by {}
    assert forall|i: int| 0 <= i < back.len() implies list[n + 1 + i] == #[trigger] back[i] by {}
    if names_gnome(list) {
        let (start, end) = choose|start: int, end: int| #[trigger]
            entry_is_gnome(list, start, end);
        if start <= n {
            assert(end <= n);
            assert(list.subrange(start, end) =~= front.subrange(start, end));
            assert(is_entry(front, start, end));
            assert(entry_is_gnome(front, start, end));
        } else {
            let from = start - n - 1;
            let to = end - n - 1;
            assert(list.subrange(start, end) =~= back.subrange(from, to));
            assert forall|i: int| from <= i < to implies back[i] != ':' by {
                assert(list[n + 1 + i] == back[i]);
            }
            assert(is_entry(back, from, to));
            assert(entry_is_gnome(back, from, to));
        }
    }
    if names_gnome(front) {
        let (start, end) = choose|start: int, end: int| #[trigger]
            entry_is_gnome(front, start, end);
        assert(list.subrange(start, end) =~= front.subrange(start, end));
        assert(is_entry(list, start, end));
        assert(entry_is_gnome(list, start, end));
    }
    if names_gnome(back) {
        let (from, to) = choose|start: int, end: int| #[trigger] entry_is_gnome(back, start, end);
        let start = n + 1 + from;
        let end = n + 1 + to;
        assert(list.subrange(start, end) =~= back.subrange(from, to));
        assert forall|i: int| start <= i < end implies list[i] != ':' by {
            assert(list[i] == back[i - n - 1]);
        }
        assert(is_entry(list, start, end));
        assert(entry_is_gnome(list, start, end));
    }
}

/// A probe finds its tool working if and only if it could be run and exited with success. Then the
/// tool is the one whose turn it is, and the search stays with it; otherwise the next one has its
/// turn. Once all have had their turn, nothing is found.
pub proof fn law_probe_outcome(search: DetectionView, exit: Option<bool>)
    ensures
        probe_succeeded(exit) <==> exit == Some(true),
        search.next < search.candidates.len() ==> search.candidate() == Some(
            search.candidates[search.next as int],
        ),
        search.next >= search.candidates.len() ==> search.candidate() is None,
        search.probed(exit).0.candidates == search.candidates,
        search.next < search.candidates.len() && exit == Some(true) ==> search.probed(exit).1
            == Some(search.candidates[search.next as int]) && search.probed(exit).0.next
            == search.next,
        search.next < search.candidates.len() && exit != Some(true) ==> search.probed(exit).1
            is None && search.probed(exit).0.next == search.next + 1,
        search.next >= search.candidates.len() ==> search.probed(exit).1 is None && search.probed(
            exit,
        ).0.next == search.next,
{
}

} // verus!
