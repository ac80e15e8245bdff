//! Where things lie on disk: the state file of a session, and the plugin.
use vstd::prelude::*;

use crate::text::{
    all_digits, decimal, is_blank, is_digit, is_white, law_decimal_writes_the_number,
    law_trimming_cuts_white_ends, trim, trimmed,
};

verus! {

/// The characters that a session name may put into a path as they are.
pub open spec fn is_safe(c: char) -> bool {
    ||| '0' <= c <= '9'
    ||| 'A' <= c <= 'Z'
    ||| 'a' <= c <= 'z'
    ||| c == '-'
    ||| c == '_'
}

/// `session` with each unsafe character turned into an underscore.
pub open spec fn sanitized(session: Seq<char>) -> Seq<char> {
    Seq::new(
        session.len(),
        |i: int|
            if is_safe(session[i]) {
                session[i]
            } else {
                '_'
            },
    )
}

/// The state file of a session, below the directory for temporary files.
pub open spec fn relative_path_of(session: Seq<char>) -> Seq<char> {
    "zj-agent-state/"@ + sanitized(session) + "/state.json"@
}

/// The state file of a session, as a plugin sees it.
pub open spec fn state_path_of(session: Seq<char>) -> Seq<char> {
    "/tmp/zj-agent-state/"@ + sanitized(session) + "/state.json"@
}

/// Turns a session name into a safe component of a path.
pub fn sanitize_session(session: &str) -> (name: String)
    ensures
        name@ == sanitized(session@),
{
    let mut name = String::new();
    for c in it: session.chars()
        invariant
            it.seq() == session@,
            name@ == sanitized(session@).take(it.index() as int),
    {
        let safe = ('0' <= c && c <= '9') || ('A' <= c && c <= 'Z') || ('a' <= c && c <= 'z') || c
            == '-' || c == '_';
        name.push(if safe {
            c
        } else {
            '_'
        });
        assert(name@ =~= sanitized(session@).take(it.index() + 1));
    }
    assert(sanitized(session@).take(session@.len() as int) =~= sanitized(session@));
    name
}

/// The state file of `session` relative to the directory for temporary files.
/// A program that is no plugin resolves it against its own such
/// directory.
pub fn relative_state_path(session: &str) -> (path: String)
    ensures
        path@ == relative_path_of(session@),
{
    let mut path = "zj-agent-state/".to_owned();
    path.append(sanitize_session(session).as_str());
    path.append("/state.json");
    path
}

/// The state file of `session`. There is one for each session, so that
/// sessions that run side by side do not overwrite one another's state.
pub fn state_path(session: &str) -> (path: String)
    ensures
        path@ == state_path_of(session@),
{
    let mut path = "/tmp/".to_owned();
    path.append(relative_state_path(session).as_str());
    proof {
        law_paths_share_their_tail(session@);
    }
    path
}

/// The name of the directory that the host mounts as the plugin's `/tmp`, for
/// a user id as `id -u` prints it.
pub open spec fn scratch_dir_of(uid: Option<Seq<char>>) -> Seq<char> {
    "zellij-"@ + (match uid {
        Some(uid) => trimmed(uid),
        None => "0"@,
    })
}

/// Names the host's scratch directory from what `id -u` printed; user `0` is
/// taken where that could not be read.
pub fn scratch_dir(uid: Option<String>) -> (name: String)
    ensures
        name@ == scratch_dir_of(crate::model::text_view(uid)),
{
    let mut name = "zellij-".to_owned();
    match uid {
        Some(uid) => name.append(trim(uid.as_str()).as_str()),
        None => name.append("0"),
    }
    name
}

/// Where the watcher plugin is installed below a home directory.
pub open spec fn plugin_path_of(home: Option<Seq<char>>) -> Seq<char> {
    (match home {
        Some(home) => home,
        None => "/root"@,
    }) + "/.config/zellij/plugins/zj-agent-state-watcher.wasm"@
}

/// The session that a variable names.
pub open spec fn session_of(var: Option<Seq<char>>) -> Seq<char> {
    match var {
        Some(var) => var,
        None => "default"@,
    }
}

/// Where the watcher plugin is installed for the user whose home directory is
/// `home`. A user without one is taken to be root.
pub fn watcher_wasm_host_path(home: Option<String>) -> (path: String)
    ensures
        path@ == (match home {
            Some(home) => home@,
            None => "/root"@,
        }) + "/.config/zellij/plugins/zj-agent-state-watcher.wasm"@,
        path@ == plugin_path_of(crate::model::text_view(home)),
{
    let mut path = match home {
        Some(home) => home,
        None => "/root".to_owned(),
    };
    path.append("/.config/zellij/plugins/zj-agent-state-watcher.wasm");
    path
}

/// The name of the session that a program runs in. Outside of any session it
/// is `default`.
pub fn session_name(var: Option<String>) -> (name: String)
    ensures
        name@ == (match var {
            Some(var) => var@,
            None => "default"@,
        }),
        name@ == session_of(crate::model::text_view(var)),
{
    match var {
        Some(var) => var,
        None => "default".to_owned(),
    }
}

/// The plugin's path and the host's path name one file: the first is the second
/// below `/tmp/`.
pub proof fn law_paths_share_their_tail(session: Seq<char>)
    ensures
        state_path_of(session) == "/tmp/"@ + relative_path_of(session),
{
    reveal_strlit("/tmp/");
    reveal_strlit("zj-agent-state/");
    reveal_strlit("/tmp/zj-agent-state/");
    assert("/tmp/zj-agent-state/"@ =~= "/tmp/"@ + "zj-agent-state/"@);
    assert(state_path_of(session) =~= "/tmp/"@ + relative_path_of(session));
}

/// A sanitized name is a safe path component: it holds safe characters alone,
/// so neither a separator nor a dot, and as many as the name had.
pub proof fn law_sanitized_is_safe(session: Seq<char>)
    ensures
        sanitized(session).len() == session.len(),
        forall|i: int|
            0 <= i < session.len() ==> {
                &&& is_safe(#[trigger] sanitized(session)[i])
                &&& sanitized(session)[i] != '/'
                &&& sanitized(session)[i] != '.'
            },
        sanitized(sanitized(session)) == sanitized(session),
{
    assert(sanitized(sanitized(session)) =~= sanitized(session));
}

/// A name of safe characters alone is kept as it is.
pub proof fn law_safe_name_is_kept(session: Seq<char>)
    requires
        forall|i: int| 0 <= i < session.len() ==> is_safe(#[trigger] session[i]),
    ensures
        sanitized(session) == session,
{
    assert(sanitized(session) =~= session);
}

/// Two sessions share a state file only if their sanitized names are the same;
/// so two sessions whose names are safe and differ never share one.
pub proof fn law_state_path_scopes_by_session(a: Seq<char>, b: Seq<char>)
    ensures
        state_path_of(a) == state_path_of(b) <==> sanitized(a) == sanitized(b),
        (forall|i: int| 0 <= i < a.len() ==> is_safe(#[trigger] a[i])) && (forall|i: int|
            0 <= i < b.len() ==> is_safe(#[trigger] b[i])) && a != b ==> state_path_of(a)
            != state_path_of(b),
{
    let head = "/tmp/zj-agent-state/"@;
    let tail = "/state.json"@;
    if state_path_of(a) == state_path_of(b) {
        assert(state_path_of(a).len() == head.len() + a.len() + tail.len());
        assert(state_path_of(b).len() == head.len() + b.len() + tail.len());
        assert forall|i: int| 0 <= i < a.len() implies sanitized(a)[i] == sanitized(b)[i] by {
            assert(state_path_of(a)[head.len() + i] == sanitized(a)[i]);
            assert(state_path_of(b)[head.len() + i] == sanitized(b)[i]);
        }
        assert(sanitized(a) =~= sanitized(b));
    }
    if forall|i: int| 0 <= i < a.len() ==> is_safe(#[trigger] a[i]) {
        law_safe_name_is_kept(a);
    }
    if forall|i: int| 0 <= i < b.len() ==> is_safe(#[trigger] b[i]) {
        law_safe_name_is_kept(b);
    }
}

/// A session's name goes into its path character by character: letters and digits of
/// ASCII, hyphens and underscores as they are, and an underscore for every other.
pub proof fn law_sanitizing_goes_by_character(session: Seq<char>, i: int)
    requires
        0 <= i < session.len(),
    ensures
        ({
            let c = session[i] as int;
            let kept = (0x30 <= c <= 0x39) || (0x41 <= c <= 0x5a) || (0x61 <= c <= 0x7a) || c == 0x2d
                || c == 0x5f;
            &&& sanitized(session).len() == session.len()
            &&& kept ==> sanitized(session)[i] == session[i]
            &&& !kept ==> sanitized(session)[i] == '_'
        }),
{
}

/// The state file of a session lies in a directory of the session's own, which bears its
/// sanitized name, and that lies below one directory for all sessions.
pub proof fn law_state_path_names_the_session(session: Seq<char>)
    ensures
        exists|root: Seq<char>, file: Seq<char>|
            {
                &&& state_path_of(session) == #[trigger] (root + sanitized(session) + file)
                &&& root == "/tmp/zj-agent-state/"@
                &&& file == "/state.json"@
            },
{
    let root = "/tmp/zj-agent-state/"@;
    let file = "/state.json"@;
    assert(state_path_of(session) == root + sanitized(session) + file);
}

/// The scratch directory is named after the user: the digits of the user's id behind
/// `zellij-`, whatever white space stands around them, so that two users never share one.
pub proof fn law_scratch_directory_is_the_users(n: nat, m: nat, before: Seq<char>, after: Seq<char>)
    requires
        is_blank(before),
        is_blank(after),
    ensures
        scratch_dir_of(Some(before + decimal(n) + after)) == "zellij-"@ + decimal(n),
        scratch_dir_of(None) == "zellij-"@ + decimal(0),
        n != m ==> scratch_dir_of(Some(decimal(n))) != scratch_dir_of(Some(decimal(m))),
{
    reveal_strlit("0");
    law_decimal_writes_the_number(n);
    law_decimal_writes_the_number(m);
    law_decimal_writes_the_number(0);
    lemma_trimming_digits(before, decimal(n), after);
    let none = Seq::<char>::empty();
    lemma_trimming_digits(none, decimal(n), none);
    lemma_trimming_digits(none, decimal(m), none);
    assert(none + decimal(n) + none =~= decimal(n));
    assert(none + decimal(m) + none =~= decimal(m));
    assert("0"@ =~= decimal(0));
    if n != m && scratch_dir_of(Some(decimal(n))) == scratch_dir_of(Some(decimal(m))) {
        let head = "zellij-"@;
        assert((head + decimal(n)).skip(head.len() as int) =~= decimal(n));
        assert((head + decimal(m)).skip(head.len() as int) =~= decimal(m));
    }
}

proof fn lemma_trimming_digits(before: Seq<char>, digits: Seq<char>, after: Seq<char>)
    requires
        is_blank(before),
        is_blank(after),
        digits.len() > 0,
        all_digits(digits),
    ensures
        trimmed(before + digits + after) == digits,
    decreases before.len() + after.len(),
{
    let s = before + digits + after;
    assert(is_digit(digits[0]) && is_digit(digits[digits.len() - 1]));
    if before.len() > 0 {
        assert(is_white(before[0]));
        assert(s.first() == before[0]);
        let rest = before.drop_first();
        assert forall|i: int| 0 <= i < rest.len() implies is_white(#[trigger] rest[i]) by {
            assert(rest[i] == before[i + 1]);
        }
        lemma_trimming_digits(rest, digits, after);
        assert(s.drop_first() =~= rest + digits + after);
    } else if after.len() > 0 {
        assert(is_white(after[after.len() - 1]));
        assert(s.first() == digits[0]);
        assert(s.last() == after[after.len() - 1]);
        let rest = after.drop_last();
        assert forall|i: int| 0 <= i < rest.len() implies is_white(#[trigger] rest[i]) by {
            assert(rest[i] == after[i]);
        }
        lemma_trimming_digits(before, digits, rest);
        assert(s.drop_last() =~= before + digits + rest);
    } else {
        assert(s =~= digits);
    }
}

/// The plugin lies at one place below every home directory, whichever it is, and below that of
/// root where there is none. A session keeps the name that it has, the empty one too, and is
/// `default` where there is none.
pub proof fn law_names_from_the_environment_are_kept(value: Seq<char>, other: Seq<char>)
    ensures
        plugin_path_of(Some(value)).take(value.len() as int) == value,
        plugin_path_of(Some(value)).skip(value.len() as int) == plugin_path_of(Some(other)).skip(
            other.len() as int,
        ),
        plugin_path_of(None) == plugin_path_of(Some("/root"@)),
        session_of(Some(value)) == value,
        session_of(None) == "default"@,
{
    let tail = "/.config/zellij/plugins/zj-agent-state-watcher.wasm"@;
    assert(plugin_path_of(Some(value)).take(value.len() as int) =~= value);
    assert(plugin_path_of(Some(value)).skip(value.len() as int) =~= tail);
    assert(plugin_path_of(Some(other)).skip(other.len() as int) =~= tail);
}

/// The name of the scratch directory is what was printed for the user's id, without the white
/// space around it, behind a fixed beginning.
pub proof fn law_scratch_directory_keeps_the_id(uid: Seq<char>)
    ensures
        scratch_dir_of(Some(uid)).take(7) == seq!['z', 'e', 'l', 'l', 'i', 'j', '-'],
        exists|from: int, to: int|
            {
                &&& 0 <= from <= to <= uid.len()
                &&& scratch_dir_of(Some(uid)).skip(7) == #[trigger] uid.subrange(from, to)
                &&& forall|i: int| 0 <= i < from ==> is_white(#[trigger] uid[i])
                &&& forall|i: int| to <= i < uid.len() ==> is_white(#[trigger] uid[i])
            },
        scratch_dir_of(Some(uid)).len() > 7 ==> !is_white(scratch_dir_of(Some(uid))[7]) && !is_white(
            scratch_dir_of(Some(uid)).last(),
        ),
{
    reveal_strlit("zellij-");
    law_trimming_cuts_white_ends(uid);
    assert(scratch_dir_of(Some(uid)).take(7) =~= seq!['z', 'e', 'l', 'l', 'i', 'j', '-']);
    assert(scratch_dir_of(Some(uid)).skip(7) =~= trimmed(uid));
    if scratch_dir_of(Some(uid)).len() > 7 {
        assert(scratch_dir_of(Some(uid))[7] == trimmed(uid).first());
        assert(scratch_dir_of(Some(uid)).last() == trimmed(uid).last());
    }
}

} // verus!
