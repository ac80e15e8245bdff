//! Making sure that a watcher runs: a ping is sent, the state file is polled for an
//! answer and, if none comes, one program of several spawns the watcher.
use vstd::prelude::*;

use crate::model::Snapshot;
use crate::watcher::WatcherView;

verus! {

/// How long an answer is waited for, in milliseconds.
pub const PROBE_WINDOW_MS: u64 = 800;

/// How long to sleep between two looks at the file, in milliseconds.
pub const POLL_INTERVAL_MS: u64 = 100;

/// The file that is locked while a watcher is spawned, beside the state file.
pub const LOCK_NAME: &'static str = "spawn.lock";

/// The file that is locked where the state file has no directory.
pub const FALLBACK_LOCK_PATH: &'static str = "/tmp/zj-agent-state-spawn.lock";

/// The generation of a snapshot that was read; zero where none could be.
pub open spec fn generation_of(snapshot: Option<Snapshot>) -> u64 {
    match snapshot {
        Some(snapshot) => snapshot.generation,
        None => 0,
    }
}

/// The generation of `snapshot`.
pub fn current_generation(snapshot: &Option<Snapshot>) -> (generation: u64)
    ensures
        generation == generation_of(*snapshot),
{
    match snapshot {
        Some(snapshot) => snapshot.generation,
        None => 0,
    }
}

/// How an attempt to take the lock ended.
#[derive(Clone, Copy, Debug, PartialEq, Eq, Structural)]
pub enum Lock {
    Acquired,
    /// Another program has the lock, and is spawning.
    Held,
    /// The file that is to be locked could not be opened.
    NotOpened,
}

/// What happens while a launch is under way.
#[derive(Clone, Copy, Debug, PartialEq, Eq, Structural)]
pub enum LaunchEvent {
    /// So long after the ping, the state file had this generation.
    Polled { elapsed_ms: u64, generation: u64 },
    Tried(Lock),
}

/// What a launch wants done next.
#[derive(Clone, Copy, Debug, PartialEq, Eq, Structural)]
pub enum LaunchAction {
    /// Sleep for `POLL_INTERVAL_MS`, and poll again.
    Sleep,
    /// Try to take the lock, without waiting for it.
    TryLock,
    /// Spawn the watcher, and then give the lock back.
    Spawn,
    /// Nothing more.
    Leave,
}

/// How far a launch has come.
#[derive(Clone, Copy, Debug, PartialEq, Eq, Structural)]
pub enum Phase {
    Probing,
    Locking,
    Over,
}

/// One launch, from the ping to its end.
#[derive(Clone, Copy, Debug, PartialEq, Eq, Structural)]
pub struct Launch {
    /// The generation of the state file before the ping.
    pub before: u64,
    pub phase: Phase,
}

impl Launch {
    /// The launch after an event.
    pub open spec fn after(self, event: LaunchEvent) -> Launch {
        Launch {
            phase: match (self.phase, event) {
                (Phase::Probing, LaunchEvent::Polled { elapsed_ms, generation }) => if elapsed_ms
                    >= PROBE_WINDOW_MS {
                    Phase::Locking
                } else if generation != self.before {
                    Phase::Over
                } else {
                    Phase::Probing
                },
                _ => Phase::Over,
            },
            ..self
        }
    }

    /// What the launch wants done after an event.
    pub open spec fn answer(self, event: LaunchEvent) -> LaunchAction {
        match (self.phase, event) {
            (Phase::Probing, LaunchEvent::Polled { elapsed_ms, generation }) => if elapsed_ms
                >= PROBE_WINDOW_MS {
                LaunchAction::TryLock
            } else if generation != self.before {
                LaunchAction::Leave
            } else {
                LaunchAction::Sleep
            },
            (Phase::Locking, LaunchEvent::Tried(lock)) => if lock is Acquired {
                LaunchAction::Spawn
            } else {
                LaunchAction::Leave
            },
            _ => LaunchAction::Leave,
        }
    }

    /// A launch of a program that found the state file at generation `before`, and
    /// has sent its ping.
    pub fn new(before: u64) -> (launch: Self)
        ensures
            launch == (Launch { before, phase: Phase::Probing }),
    {
        Launch { before, phase: Phase::Probing }
    }

    /// Takes an event in.
    pub fn step(&mut self, event: LaunchEvent) -> (action: LaunchAction)
        ensures
            *final(self) == old(self).after(event),
            action == old(self).answer(event),
    {
        match (self.phase, event) {
            (Phase::Probing, LaunchEvent::Polled { elapsed_ms, generation }) => {
                if elapsed_ms >= PROBE_WINDOW_MS {
                    self.phase = Phase::Locking;
                    LaunchAction::TryLock
                } else if generation != self.before {
                    self.phase = Phase::Over;
                    LaunchAction::Leave
                } else {
                    LaunchAction::Sleep
                }
            },
            (Phase::Locking, LaunchEvent::Tried(lock)) => {
                self.phase = Phase::Over;
                if lock == Lock::Acquired {
                    LaunchAction::Spawn
                } else {
                    LaunchAction::Leave
                }
            },
            _ => {
                self.phase = Phase::Over;
                LaunchAction::Leave
            },
        }
    }
}

/// The launch after several events.
pub open spec fn launched(launch: Launch, events: Seq<LaunchEvent>) -> Launch
    decreases events.len(),
{
    if events.len() == 0 {
        launch
    } else {
        launched(launch, events.drop_last()).after(events.last())
    }
}

/// The event shows that a watcher has answered within the window.
pub open spec fn is_answer(launch: Launch, event: LaunchEvent) -> bool {
    event matches LaunchEvent::Polled { elapsed_ms, generation } && elapsed_ms < PROBE_WINDOW_MS
        && generation != launch.before
}

/// A watcher is spawned only by a program that waited for the whole window, saw no
/// answer in it, and then took the lock.
pub proof fn law_spawns_only_unanswered_and_locked(
    before: u64,
    events: Seq<LaunchEvent>,
    event: LaunchEvent,
)
    requires
        launched(Launch { before, phase: Phase::Probing }, events).answer(event) is Spawn,
    ensures
        event == LaunchEvent::Tried(Lock::Acquired),
        events.len() > 0,
        events.last() matches LaunchEvent::Polled { elapsed_ms, generation } && elapsed_ms
            >= PROBE_WINDOW_MS,
        forall|i: int|
            0 <= i < events.len() ==> !is_answer(
                Launch { before, phase: Phase::Probing },
                #[trigger] events[i],
            ),
{
    let start = Launch { before, phase: Phase::Probing };
    lemma_phases(start, events.drop_last());
    assert forall|i: int| 0 <= i < events.len() implies !is_answer(start, #[trigger] events[i]) by {
        if i < events.len() - 1 {
            assert(events.drop_last()[i] == events[i]);
        }
    }
}

proof fn lemma_phases(start: Launch, events: Seq<LaunchEvent>)
    requires
        start.phase is Probing,
    ensures
        launched(start, events).before == start.before,
        launched(start, events).phase is Probing ==> forall|i: int|
            0 <= i < events.len() ==> !is_answer(start, #[trigger] events[i]),
    decreases events.len(),
{
    if events.len() > 0 {
        let rest = events.drop_last();
        lemma_phases(start, rest);
        if launched(start, events).phase is Probing {
            assert forall|i: int| 0 <= i < events.len() implies !is_answer(
                start,
                #[trigger] events[i],
            ) by {
                if i < rest.len() {
                    assert(rest[i] == events[i]);
                }
            }
        }
    }
}

/// A launch that is over stays over: it wants nothing more done, whatever happens.
pub proof fn law_over_is_over(launch: Launch, event: LaunchEvent)
    ensures
        launch.answer(event) is Leave || launch.answer(event) is Spawn <==> launch.after(event).phase is Over,
        launch.phase is Over ==> launch.answer(event) is Leave && launch.after(event).phase is Over,
{
}

/// A watcher that runs is not spawned again: the generation of its answer to the ping
/// ends a launch that sees it within the window.
pub proof fn law_answer_ends_the_launch(watcher: WatcherView, elapsed_ms: u64)
    requires
        watcher.session_name is Some,
        watcher.can_advance(),
        elapsed_ms < PROBE_WINDOW_MS,
    ensures
        ({
            let launch = Launch { before: watcher.generation, phase: Phase::Probing };
            let generation = watcher.request()->0.snapshot.generation;
            launch.answer(LaunchEvent::Polled { elapsed_ms, generation }) is Leave
        }),
{
}

/// A launch waits for as long as the window lasts and no answer comes, however often it
/// looks. The first look after the window sends it to the lock, whatever it sees then, and
/// the lock decides: who has it spawns the watcher, and who has it not leaves.
pub proof fn law_silence_leads_to_the_lock(
    before: u64,
    events: Seq<LaunchEvent>,
    late: u64,
    seen: u64,
    lock: Lock,
)
    requires
        forall|i: int|
            0 <= i < events.len() ==> (#[trigger] events[i] matches LaunchEvent::Polled {
                elapsed_ms,
                generation,
            } && elapsed_ms < PROBE_WINDOW_MS && generation == before),
        late >= PROBE_WINDOW_MS,
    ensures
        ({
            let start = Launch { before, phase: Phase::Probing };
            let waiting = launched(start, events);
            let poll = LaunchEvent::Polled { elapsed_ms: late, generation: seen };
            let locking = waiting.after(poll);
            &&& waiting == start
            &&& events.len() > 0 ==> launched(start, events.drop_last()).answer(events.last()) is Sleep
            &&& waiting.answer(poll) is TryLock
            &&& lock == Lock::Acquired ==> locking.answer(LaunchEvent::Tried(lock)) is Spawn
            &&& lock != Lock::Acquired ==> locking.answer(LaunchEvent::Tried(lock)) is Leave
            &&& locking.after(LaunchEvent::Tried(lock)).phase is Over
        }),
    decreases events.len(),
{
    let start = Launch { before, phase: Phase::Probing };
    if events.len() > 0 {
        let rest = events.drop_last();
        assert forall|i: int| 0 <= i < rest.len() implies (
        #[trigger] rest[i] matches LaunchEvent::Polled { elapsed_ms, generation } && elapsed_ms
            < PROBE_WINDOW_MS && generation == before) by {
            assert(rest[i] == events[i]);
        }
        law_silence_leads_to_the_lock(before, rest, late, seen, lock);
        assert(events[events.len() - 1] == events.last());
    }
}

/// Any other generation than the one before the ping is an answer, if it is seen within the
/// window: the launch ends without a spawn, and stays ended.
pub proof fn law_any_change_is_an_answer(
    before: u64,
    elapsed_ms: u64,
    generation: u64,
    later: LaunchEvent,
)
    requires
        elapsed_ms < PROBE_WINDOW_MS,
        generation != before,
    ensures
        ({
            let start = Launch { before, phase: Phase::Probing };
            let poll = LaunchEvent::Polled { elapsed_ms, generation };
            &&& start.answer(poll) is Leave
            &&& start.after(poll).answer(later) is Leave
            &&& start.after(poll).after(later).phase is Over
        }),
{
}

/// The generation is that of the snapshot which was read, and zero where none was.
pub proof fn law_generation_is_the_snapshots(snapshot: Snapshot)
    ensures
        generation_of(Some(snapshot)) == snapshot.generation,
        generation_of(None) == 0,
{
}

} // verus!
