//! The commands that are handed to the multiplexer, as lists of arguments.
use vstd::prelude::*;

use crate::model::Row;
use crate::panes::{Decision, PANE_TITLE, PaneHit};
use crate::protocol::{PING_PIPE_NAME, SELF_URL_KEY, SESSION_NAME_KEY};
use crate::text::{
    all_digits, decimal, law_decimal_writes_the_number, number, same_text, value_of,
};

verus! {

/// The flag that sends the user to the pane that shows the agents.
pub const JUMP_FLAG: &'static str = "--jump";

/// The flag that tells a program that its pane floats already.
pub const FLOATING_FLAG: &'static str = "--floating";

/// What a command says.
pub open spec fn command_view(command: Seq<String>) -> Seq<Seq<char>> {
    Seq::new(command.len(), |i: int| command[i]@)
}

/// What a list of commands says.
pub open spec fn commands_view(commands: Seq<Vec<String>>) -> Seq<Seq<Seq<char>>> {
    Seq::new(commands.len(), |i: int| command_view(commands[i]@))
}

/// A command of these words.
fn command(words: &[&str]) -> (command: Vec<String>)
    ensures
        command_view(command@) == Seq::new(words@.len(), |i: int| words@[i]@),
{
    let mut command: Vec<String> = Vec::new();
    let mut i: usize = 0;
    while i < words.len()
        invariant
            i <= words.len(),
            command.len() == i,
            forall|k: int| 0 <= k < i ==> (#[trigger] command@[k])@ == words@[k]@,
        decreases words.len() - i,
    {
        command.push(words[i].to_owned());
        i += 1;
    }
    assert(command_view(command@) =~= Seq::new(words@.len(), |i: int| words@[i]@));
    command
}

/// The commands that go to a pane: first to its tab, counted from one, as focusing
/// a pane does not change the tab, and then to the pane.
pub open spec fn jump_commands(id: u32, tab_position: usize) -> Seq<Seq<Seq<char>>> {
    seq![
        seq!["action"@, "go-to-tab"@, decimal((tab_position + 1) as nat)],
        seq!["action"@, "focus-pane-id"@, decimal(id as nat)],
    ]
}

/// The commands that go to the pane `hit`.
pub fn jump_to_pane(hit: &PaneHit) -> (commands: Vec<Vec<String>>)
    ensures
        commands_view(commands@) == jump_commands(hit.id, hit.tab_position),
{
    let ghost expected = jump_commands(hit.id, hit.tab_position);
    let tab = number(hit.tab_position as u128 + 1);
    let id = number(hit.id as u128);
    let mut commands: Vec<Vec<String>> = Vec::new();
    commands.push(command(&["action", "go-to-tab", tab.as_str()]));
    commands.push(command(&["action", "focus-pane-id", id.as_str()]));
    assert(command_view(commands@[0]@) =~= expected[0]);
    assert(command_view(commands@[1]@) =~= expected[1]);
    assert(commands_view(commands@) =~= expected);
    commands
}

/// The commands that go to the pane of `row`.
pub fn jump_to(row: &Row) -> (commands: Vec<Vec<String>>)
    ensures
        commands_view(commands@) == jump_commands(row.pane_id, row.tab_position),
{
    jump_to_pane(&PaneHit { id: row.pane_id, tab_position: row.tab_position, focused: false })
}

/// The commands that carry out a decision. To open a pane takes none: the program
/// that decided becomes the pane, or opens another with `open_pane`.
pub open spec fn decision_commands(decision: Decision) -> Seq<Seq<Seq<char>>> {
    match decision {
        Decision::Close(id) => seq![seq!["action"@, "close-pane"@, "-p"@, decimal(id as nat)]],
        Decision::Jump(hit) => jump_commands(hit.id, hit.tab_position),
        Decision::Open => Seq::empty(),
    }
}

/// The commands that carry out `decision`.
pub fn carry_out(decision: &Decision) -> (commands: Vec<Vec<String>>)
    ensures
        commands_view(commands@) == decision_commands(*decision),
{
    match decision {
        Decision::Close(id) => {
            let id = number(*id as u128);
            let mut commands: Vec<Vec<String>> = Vec::new();
            commands.push(command(&["action", "close-pane", "-p", id.as_str()]));
            assert(command_view(commands@[0]@) =~= decision_commands(*decision)[0]);
            assert(commands_view(commands@) =~= decision_commands(*decision));
            commands
        },
        Decision::Jump(hit) => jump_to_pane(hit),
        Decision::Open => {
            let commands: Vec<Vec<String>> = Vec::new();
            assert(commands_view(commands@) =~= decision_commands(*decision));
            commands
        },
    }
}

/// The command that opens a floating pane for the agents, up to the program that
/// runs in it. The program and `FLOATING_FLAG` follow.
pub fn open_pane() -> (command: Vec<String>)
    ensures
        command_view(command@) == seq![
            "action"@,
            "new-pane"@,
            "--floating"@,
            "--close-on-exit"@,
            "--name"@,
            PANE_TITLE@,
            "--"@,
        ],
{
    command(&["action", "new-pane", "--floating", "--close-on-exit", "--name", PANE_TITLE, "--"])
}

/// The commands that make a pane an overlay: it is made to float, unless it does
/// already, and is pinned over the right of the screen.
pub open spec fn overlay_commands(own: Option<u32>, already_floating: bool) -> Seq<Seq<Seq<char>>> {
    match own {
        Some(id) => {
            let place = seq![
                "action"@,
                "change-floating-pane-coordinates"@,
                "-p"@,
                decimal(id as nat),
                "--width"@,
                "40%"@,
                "--height"@,
                "100%"@,
                "--x"@,
                "60%"@,
                "--y"@,
                "0"@,
                "--pinned"@,
                "true"@,
            ];
            if already_floating {
                seq![place]
            } else {
                seq![
                    seq![
                        "action"@,
                        "toggle-pane-embed-or-floating"@,
                        "-p"@,
                        decimal(id as nat),
                    ],
                    place,
                ]
            }
        },
        None => Seq::empty(),
    }
}

/// The commands that make the pane `own` an overlay. Without a pane there are none.
pub fn present_as_overlay(own: Option<u32>, already_floating: bool) -> (commands: Vec<Vec<String>>)
    ensures
        commands_view(commands@) == overlay_commands(own, already_floating),
{
    let ghost expected = overlay_commands(own, already_floating);
    let mut commands: Vec<Vec<String>> = Vec::new();
    let id = match own {
        Some(id) => number(id as u128),
        None => {
            assert(commands_view(commands@) =~= expected);
            return commands;
        },
    };
    if !already_floating {
        commands.push(command(&["action", "toggle-pane-embed-or-floating", "-p", id.as_str()]));
        assert(command_view(commands@[0]@) =~= expected[0]);
    }
    commands.push(
        command(
            &[
                "action",
                "change-floating-pane-coordinates",
                "-p",
                id.as_str(),
                "--width",
                "40%",
                "--height",
                "100%",
                "--x",
                "60%",
                "--y",
                "0",
                "--pinned",
                "true",
            ],
        ),
    );
    assert(command_view(commands@.last()@) =~= expected.last());
    assert(commands_view(commands@) =~= expected);
    commands
}

/// The command that gives the program's own pane the title of the agents.
pub fn rename_pane() -> (command: Vec<String>)
    ensures
        command_view(command@) == seq!["action"@, "rename-pane"@, PANE_TITLE@],
{
    command(&["action", "rename-pane", PANE_TITLE])
}

/// The command that lists all panes of the session as JSON.
pub fn list_panes() -> (command: Vec<String>)
    ensures
        command_view(command@) == seq!["action"@, "list-panes"@, "--all"@, "--json"@],
{
    command(&["action", "list-panes", "--all", "--json"])
}

/// The command that describes the current tab as JSON.
pub fn current_tab_info() -> (command: Vec<String>)
    ensures
        command_view(command@) == seq!["action"@, "current-tab-info"@, "--json"@],
{
    command(&["action", "current-tab-info", "--json"])
}

/// The command that asks whether a watcher is listening.
pub fn ping() -> (command: Vec<String>)
    ensures
        command_view(command@) == seq!["pipe"@, "--name"@, PING_PIPE_NAME@, "--"@, "ping"@],
{
    command(&["pipe", "--name", PING_PIPE_NAME, "--", "ping"])
}

/// The URL of the plugin at `path`.
pub open spec fn url_of(path: Seq<char>) -> Seq<char> {
    "file:"@ + path
}

/// The configuration that a watcher is spawned with: its own URL and its session, as
/// one list of `key=value` pairs with commas between them.
pub open spec fn spawn_config(url: Seq<char>, session: Seq<char>) -> Seq<char> {
    SELF_URL_KEY@ + "="@ + url + ","@ + SESSION_NAME_KEY@ + "="@ + session
}

/// The command that spawns the watcher at `path` for `session`, compiled anew so that
/// a plugin that was replaced in its place is not taken from a cache.
pub fn spawn_watcher(path: &str, session: &str) -> (command: Vec<String>)
    ensures
        command_view(command@) == seq![
            "plugin"@,
            "--skip-plugin-cache"@,
            "-c"@,
            spawn_config(url_of(path@), session@),
            "--"@,
            url_of(path@),
        ],
{
    let mut url = "file:".to_owned();
    url.append(path);
    let mut config = SELF_URL_KEY.to_owned();
    config.append("=");
    config.append(url.as_str());
    config.append(",");
    config.append(SESSION_NAME_KEY);
    config.append("=");
    config.append(session);
    command(&["plugin", "--skip-plugin-cache", "-c", config.as_str(), "--", url.as_str()])
}

/// What the program was started for.
#[derive(Clone, Copy, Debug, PartialEq, Eq, Structural)]
pub enum Start {
    /// To go to the pane that shows the agents.
    Jump,
    /// To show the agents, in a pane that floats already.
    Show,
    /// To toggle the pane that shows the agents.
    Toggle,
}

/// One of `args` is `flag`.
pub open spec fn has_flag(args: Seq<String>, flag: Seq<char>) -> bool {
    exists|i: int| 0 <= i < args.len() && (#[trigger] args[i])@ == flag
}

fn find_flag(args: &Vec<String>, flag: &str) -> (found: bool)
    ensures
        found == has_flag(args@, flag@),
{
    let mut i: usize = 0;
    while i < args.len()
        invariant
            i <= args.len(),
            forall|k: int| 0 <= k < i ==> (#[trigger] args@[k])@ != flag@,
        decreases args.len() - i,
    {
        if same_text(args[i].as_str(), flag) {
            return true;
        }
        i += 1;
    }
    false
}

/// What a program with these arguments was started for.
pub open spec fn started(args: Seq<String>) -> Start {
    if has_flag(args, JUMP_FLAG@) {
        Start::Jump
    } else if has_flag(args, FLOATING_FLAG@) {
        Start::Show
    } else {
        Start::Toggle
    }
}

/// Reads from the program's arguments what it was started for. A program whose pane
/// floats already shows the agents: were it to toggle, it would find its own pane
/// and close it.
pub fn start_of(args: &Vec<String>) -> (start: Start)
    ensures
        start == (if has_flag(args@, JUMP_FLAG@) {
            Start::Jump
        } else if has_flag(args@, FLOATING_FLAG@) {
            Start::Show
        } else {
            Start::Toggle
        }),
        start == started(args@),
{
    if find_flag(args, JUMP_FLAG) {
        Start::Jump
    } else if find_flag(args, FLOATING_FLAG) {
        Start::Show
    } else {
        Start::Toggle
    }
}

/// A spawned watcher is told both its own URL, so that it can promote itself, and the
/// session of the program that spawned it: what stands before the first comma of its
/// configuration is the one, and what stands behind it is the other.
pub proof fn law_spawn_config_names_both(url: Seq<char>, session: Seq<char>)
    requires
        !url.contains(','),
    ensures
        ({
            let config = spawn_config(url, session);
            let comma = (SELF_URL_KEY@.len() + 1 + url.len()) as int;
            &&& config[comma] == ','
            &&& forall|i: int| 0 <= i < comma ==> config[i] != ','
            &&& config.take(comma) == SELF_URL_KEY@ + "="@ + url
            &&& config.skip(comma + 1) == SESSION_NAME_KEY@ + "="@ + session
        }),
{
    reveal_strlit("=");
    reveal_strlit(",");
    reveal_strlit("zj_agent_state_self_url");
    let config = spawn_config(url, session);
    let comma = (SELF_URL_KEY@.len() + 1 + url.len()) as int;
    let first = SELF_URL_KEY@ + "="@ + url;
    let second = SESSION_NAME_KEY@ + "="@ + session;
    assert(config =~= first + ","@ + second);
    assert(config.take(comma) =~= first);
    assert(config.skip(comma + 1) =~= second);
    assert forall|i: int| 0 <= i < comma implies config[i] != ',' by {
        if i < SELF_URL_KEY@.len() {
            assert(config[i] == SELF_URL_KEY@[i]);
        } else if i == SELF_URL_KEY@.len() {
            assert(config[i] == '=');
        } else {
            assert(config[i] == url[i - SELF_URL_KEY@.len() - 1]);
        }
    }
}

/// Going to a pane takes two commands in this order: the first goes to the tab whose number
/// is one above the pane's position, and the second focuses the pane with the id.
pub proof fn law_jump_goes_to_the_tab_and_then_the_pane(id: u32, tab_position: usize)
    ensures
        ({
            let commands = jump_commands(id, tab_position);
            &&& commands.len() == 2
            &&& commands[0].len() == 3
            &&& commands[0][0] == "action"@
            &&& commands[0][1] == "go-to-tab"@
            &&& all_digits(commands[0][2])
            &&& value_of(commands[0][2]) == tab_position + 1
            &&& commands[1].len() == 3
            &&& commands[1][0] == "action"@
            &&& commands[1][1] == "focus-pane-id"@
            &&& all_digits(commands[1][2])
            &&& value_of(commands[1][2]) == id
        }),
{
    law_decimal_writes_the_number((tab_position + 1) as nat);
    law_decimal_writes_the_number(id as nat);
}

/// A decision is carried out on the pane that it names: to close a pane is one command with
/// its id, to go to one is to jump to its tab and it, and to open one is none.
pub proof fn law_decision_is_carried_out_on_its_pane(decision: Decision)
    ensures
        ({
            let commands = decision_commands(decision);
            &&& decision matches Decision::Close(id) ==> {
                &&& commands.len() == 1
                &&& commands[0].len() == 4
                &&& commands[0].take(3) == seq!["action"@, "close-pane"@, "-p"@]
                &&& all_digits(commands[0][3])
                &&& value_of(commands[0][3]) == id
            }
            &&& decision matches Decision::Jump(hit) ==> {
                &&& commands.len() == 2
                &&& commands[0].len() == 3
                &&& commands[0][1] == "go-to-tab"@
                &&& value_of(commands[0][2]) == hit.tab_position + 1
                &&& commands[1].len() == 3
                &&& commands[1][1] == "focus-pane-id"@
                &&& value_of(commands[1][2]) == hit.id
            }
            &&& decision is Open ==> commands.len() == 0
        }),
{
    match decision {
        Decision::Close(id) => {
            law_decimal_writes_the_number(id as nat);
            assert(decision_commands(decision)[0].take(3) =~= seq![
                "action"@,
                "close-pane"@,
                "-p"@,
            ]);
        },
        Decision::Jump(hit) => {
            law_jump_goes_to_the_tab_and_then_the_pane(hit.id, hit.tab_position);
        },
        Decision::Open => {},
    }
}

/// A pane becomes an overlay by the same last command whether it floats or not; one that
/// does not is made to float before. Each command names the pane, and without a pane there
/// is no command.
pub proof fn law_overlay_floats_once(id: u32)
    ensures
        overlay_commands(None, true).len() == 0,
        overlay_commands(None, false).len() == 0,
        overlay_commands(Some(id), true).len() == 1,
        overlay_commands(Some(id), false).len() == 2,
        overlay_commands(Some(id), false)[1] == overlay_commands(Some(id), true)[0],
        overlay_commands(Some(id), false)[0][1] == "toggle-pane-embed-or-floating"@,
        overlay_commands(Some(id), true)[0][1] == "change-floating-pane-coordinates"@,
        forall|floating: bool, k: int|
            0 <= k < overlay_commands(Some(id), floating).len() ==> {
                let command = #[trigger] overlay_commands(Some(id), floating)[k];
                &&& command.len() >= 4
                &&& command[0] == "action"@
                &&& command[2] == "-p"@
                &&& all_digits(command[3])
                &&& value_of(command[3]) == id
            },
{
    law_decimal_writes_the_number(id as nat);
}

/// A flag is found wherever it stands among the arguments, and only where it stands whole.
pub proof fn law_flag_is_found_wherever_it_stands(a: Seq<String>, b: Seq<String>, flag: Seq<char>)
    ensures
        has_flag(a + b, flag) <==> has_flag(a, flag) || has_flag(b, flag),
        a.len() == 1 ==> (has_flag(a, flag) <==> a[0]@ == flag),
        a.len() == 0 ==> !has_flag(a, flag),
{
    if has_flag(a, flag) {
        let i = choose|i: int| 0 <= i < a.len() && (#[trigger] a[i])@ == flag;
        assert((a + b)[i]@ == flag);
    }
    if has_flag(b, flag) {
        let i = choose|i: int| 0 <= i < b.len() && (#[trigger] b[i])@ == flag;
        assert((a + b)[a.len() + i]@ == flag);
    }
    if has_flag(a + b, flag) {
        let i = choose|i: int| 0 <= i < (a + b).len() && (#[trigger] (a + b)[i])@ == flag;
        if i < a.len() {
            assert(a[i]@ == flag);
        } else {
            assert(b[i - a.len()]@ == flag);
        }
    }
    if a.len() == 1 && a[0]@ == flag {
        assert(a[0]@ == flag);
    }
}

/// The URL of a plugin is its whole path behind `file:`.
pub proof fn law_url_holds_the_path(path: Seq<char>)
    ensures
        url_of(path).len() == 5 + path.len(),
        url_of(path).take(5) == seq!['f', 'i', 'l', 'e', ':'],
        url_of(path).skip(5) == path,
{
    reveal_strlit("file:");
    assert(url_of(path).take(5) =~= seq!['f', 'i', 'l', 'e', ':']);
    assert(url_of(path).skip(5) =~= path);
}

/// A program jumps if and only if one of its arguments says so, wherever it stands. One that
/// does not shows the agents if and only if its pane floats already, and toggles otherwise.
pub proof fn law_flags_say_what_to_start(args: Seq<String>)
    ensures
        started(args) is Jump <==> exists|i: int|
            0 <= i < args.len() && (#[trigger] args[i])@ == "--jump"@,
        !(started(args) is Jump) ==> (started(args) is Show <==> exists|i: int|
            0 <= i < args.len() && (#[trigger] args[i])@ == "--floating"@),
        (forall|i: int|
            0 <= i < args.len() ==> (#[trigger] args[i])@ != "--jump"@ && args[i]@
                != "--floating"@) ==> started(args) is Toggle,
{
}

/// A list of commands says all their words, in their order.
pub proof fn law_commands_say_all_their_words(commands: Seq<Vec<String>>, k: int, w: int)
    requires
        0 <= k < commands.len(),
    ensures
        commands_view(commands).len() == commands.len(),
        commands_view(commands)[k].len() == commands[k]@.len(),
        0 <= w < commands[k]@.len() ==> commands_view(commands)[k][w] == commands[k]@[w]@,
        commands_view(commands)[k] == command_view(commands[k]@),
{
}

} // verus!
