//! What an agent is doing, as its hook reports it.
use vstd::prelude::*;

use crate::text::same_text;

verus! {

#[derive(Clone, Copy, Debug, PartialEq, Eq, Structural)]
pub enum Status {
    Working,
    Blocked,
    Idle,
    Done,
    Error,
    Unknown,
}

impl Status {
    /// The status that a hook's word stands for. A word that no hook sends is
    /// `Unknown`.
    pub open spec fn of_word(word: Seq<char>) -> Status {
        if word == "working"@ {
            Status::Working
        } else if word == "blocked"@ {
            Status::Blocked
        } else if word == "idle"@ {
            Status::Idle
        } else if word == "done"@ {
            Status::Done
        } else if word == "error"@ {
            Status::Error
        } else {
            Status::Unknown
        }
    }

    /// How urgent a status is: the lower the rank, the more urgent.
    pub open spec fn rank(self) -> nat {
        match self {
            Status::Error => 0,
            Status::Blocked => 0,
            Status::Working => 1,
            Status::Done => 2,
            Status::Idle => 3,
            Status::Unknown => 4,
        }
    }

    /// The one character that marks a status on screen.
    pub open spec fn mark(self) -> char {
        match self {
            Status::Working => '\u{25D0}',
            Status::Blocked => '\u{25C6}',
            Status::Idle => '\u{25CB}',
            Status::Done => '\u{25CF}',
            Status::Error => '\u{2717}',
            Status::Unknown => '\u{00B7}',
        }
    }

    /// The name of a status for a human reader.
    pub open spec fn caption(self) -> Seq<char> {
        match self {
            Status::Working => "working"@,
            Status::Blocked => "needs you"@,
            Status::Idle => "idle"@,
            Status::Done => "done"@,
            Status::Error => "error"@,
            Status::Unknown => "unknown"@,
        }
    }

    /// The escape sequence that switches the terminal to a status's color.
    pub open spec fn color(self) -> Seq<char> {
        match self {
            Status::Working => "\x1b[33m"@,
            Status::Blocked => "\x1b[91m"@,
            Status::Idle => "\x1b[90m"@,
            Status::Done => "\x1b[32m"@,
            Status::Error => "\x1b[31m"@,
            Status::Unknown => "\x1b[90m"@,
        }
    }

    /// A human has to act before the agent can go on.
    pub open spec fn calls_for_you(self) -> bool {
        self is Blocked || self is Error
    }

    /// Reads the word that a hook sent.
    pub fn parse(raw: &str) -> (status: Self)
        ensures
            status == Status::of_word(raw@),
    {
        if same_text(raw, "working") {
            Status::Working
        } else if same_text(raw, "blocked") {
            Status::Blocked
        } else if same_text(raw, "idle") {
            Status::Idle
        } else if same_text(raw, "done") {
            Status::Done
        } else if same_text(raw, "error") {
            Status::Error
        } else {
            Status::Unknown
        }
    }

    /// The mark of the status, as a string of one character.
    pub fn glyph(&self) -> (glyph: &'static str)
        ensures
            glyph@ == seq![self.mark()],
    {
        proof {
            reveal_strlit("\u{25D0}");
            reveal_strlit("\u{25C6}");
            reveal_strlit("\u{25CB}");
            reveal_strlit("\u{25CF}");
            reveal_strlit("\u{2717}");
            reveal_strlit("\u{00B7}");
        }
        match self {
            Status::Working => "\u{25D0}",
            Status::Blocked => "\u{25C6}",
            Status::Idle => "\u{25CB}",
            Status::Done => "\u{25CF}",
            Status::Error => "\u{2717}",
            Status::Unknown => "\u{00B7}",
        }
    }

    /// The name of the status for a human reader.
    pub fn label(&self) -> (label: &'static str)
        ensures
            label@ == self.caption(),
    {
        match self {
            Status::Working => "working",
            Status::Blocked => "needs you",
            Status::Idle => "idle",
            Status::Done => "done",
            Status::Error => "error",
            Status::Unknown => "unknown",
        }
    }

    /// The escape sequence of the status's color.
    pub fn ansi(&self) -> (ansi: &'static str)
        ensures
            ansi@ == self.color(),
    {
        match self {
            Status::Working => "\x1b[33m",
            Status::Blocked => "\x1b[91m",
            Status::Idle => "\x1b[90m",
            Status::Done => "\x1b[32m",
            Status::Error => "\x1b[31m",
            Status::Unknown => "\x1b[90m",
        }
    }

    /// The rank of the status, `0` for the most urgent.
    pub fn severity(&self) -> (severity: u8)
        ensures
            severity == self.rank(),
    {
        match self {
            Status::Error => 0,
            Status::Blocked => 0,
            Status::Working => 1,
            Status::Done => 2,
            Status::Idle => 3,
            Status::Unknown => 4,
        }
    }

    /// Whether the agent waits for a human.
    pub fn needs_you(&self) -> (needs: bool)
        ensures
            needs == self.calls_for_you(),
    {
        matches!(self, Status::Blocked | Status::Error)
    }
}

/// The statuses that need a human are exactly those of the most urgent rank.
pub proof fn law_needing_you_is_most_urgent(status: Status)
    ensures
        status.calls_for_you() <==> status.rank() == 0,
        forall|other: Status| status.calls_for_you() ==> status.rank() <= #[trigger] other.rank(),
{
}

/// A hook's word is read exactly: each of the five words stands for its own status, and
/// every other text, one in capitals or with a blank in it too, for none of these.
pub proof fn law_words_are_read_exactly(word: Seq<char>)
    ensures
        Status::of_word(word) is Working <==> word == seq!['w', 'o', 'r', 'k', 'i', 'n', 'g'],
        Status::of_word(word) is Blocked <==> word == seq!['b', 'l', 'o', 'c', 'k', 'e', 'd'],
        Status::of_word(word) is Idle <==> word == seq!['i', 'd', 'l', 'e'],
        Status::of_word(word) is Done <==> word == seq!['d', 'o', 'n', 'e'],
        Status::of_word(word) is Error <==> word == seq!['e', 'r', 'r', 'o', 'r'],
{
    reveal_strlit("working");
    reveal_strlit("blocked");
    reveal_strlit("idle");
    reveal_strlit("done");
    reveal_strlit("error");
    assert("working"@ =~= seq!['w', 'o', 'r', 'k', 'i', 'n', 'g']);
    assert("blocked"@ =~= seq!['b', 'l', 'o', 'c', 'k', 'e', 'd']);
    assert("idle"@ =~= seq!['i', 'd', 'l', 'e']);
    assert("done"@ =~= seq!['d', 'o', 'n', 'e']);
    assert("error"@ =~= seq!['e', 'r', 'r', 'o', 'r']);
    assert("working"@[0] != "blocked"@[0]);
    assert("idle"@[0] != "done"@[0]);
    assert("error"@.len() == 5);
}

/// Urgency falls from an error or a blocked agent over one at work, one that is done and
/// one that is idle to one that nothing is known of.
pub proof fn law_urgency_falls()
    ensures
        Status::Error.rank() == Status::Blocked.rank(),
        Status::Blocked.rank() < Status::Working.rank(),
        Status::Working.rank() < Status::Done.rank(),
        Status::Done.rank() < Status::Idle.rank(),
        Status::Idle.rank() < Status::Unknown.rank(),
{
}

/// No two statuses share a mark.
pub proof fn law_marks_tell_statuses_apart(a: Status, b: Status)
    ensures
        a.mark() == b.mark() <==> a == b,
{
}

} // verus!
