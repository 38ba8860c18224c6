//! When to reclaim, and when writers wait for it.

use vstd::prelude::*;

use crate::files::{FileId, FileSet, Version};
use crate::options::Options;
use crate::progress::{ReclaimProgress, ReclaimReason, ReclaimTrace};

verus! {

/// What the reclaiming task is told.
#[derive(Debug, Clone, Copy, PartialEq, Eq, Structural)]
pub enum RunEvent {
    /// The task has started.
    Started,
    /// The orphan page files have been reclaimed.
    OrphansReclaimed,
    /// The version has been gone through.
    Reclaimed,
    /// Those who wait for the version know that it has been gone through.
    Marked,
    /// There is a new version.
    NextVersion,
    /// The store shuts down.
    Terminated,
}

/// What the reclaiming task does next.
#[derive(Debug, Clone, Copy, PartialEq, Eq, Structural)]
pub enum RunAction {
    /// Reclaim the orphan page files.
    ReclaimOrphans,
    /// Go through the version and reclaim space.
    Reclaim,
    /// Tell those who wait that the version has been gone through.
    MarkReclaimed,
    /// Wait for a new version or the shutdown.
    WaitNextVersion,
    /// Stop.
    Stop,
}

/// The next step of the reclaiming task. Orphans come first and are reclaimed
/// even if space reclaiming is turned off; then every version is gone through
/// once, until the store shuts down.
pub open spec fn run_action(options: Options, event: RunEvent) -> RunAction {
    match event {
        RunEvent::Started => RunAction::ReclaimOrphans,
        RunEvent::OrphansReclaimed | RunEvent::NextVersion => if options.disable_space_reclaiming {
            RunAction::WaitNextVersion
        } else {
            RunAction::Reclaim
        },
        RunEvent::Reclaimed => RunAction::MarkReclaimed,
        RunEvent::Marked => RunAction::WaitNextVersion,
        RunEvent::Terminated => RunAction::Stop,
    }
}

/// Decides the next step of the reclaiming task.
pub fn run(options: &Options, event: RunEvent) -> (res: RunAction)
    ensures
        res == run_action(*options, event),
{
    match event {
        RunEvent::Started => RunAction::ReclaimOrphans,
        RunEvent::OrphansReclaimed | RunEvent::NextVersion => {
            if !options.disable_space_reclaiming {
                RunAction::Reclaim
            } else {
                RunAction::WaitNextVersion
            }
        },
        RunEvent::Reclaimed => RunAction::MarkReclaimed,
        RunEvent::Marked => RunAction::WaitNextVersion,
        RunEvent::Terminated => RunAction::Stop,
    }
}

/// Whether the event tells the outcome of the action.
pub open spec fn answers(event: RunEvent, action: RunAction) -> bool {
    match action {
        RunAction::ReclaimOrphans => event == RunEvent::OrphansReclaimed,
        RunAction::Reclaim => event == RunEvent::Reclaimed,
        RunAction::MarkReclaimed => event == RunEvent::Marked,
        RunAction::WaitNextVersion => event == RunEvent::NextVersion || event
            == RunEvent::Terminated,
        RunAction::Stop => false,
    }
}

/// A run of the task: it starts, and each event tells the outcome of the action
/// before it.
pub open spec fn is_run(options: Options, events: Seq<RunEvent>) -> bool {
    &&& events.len() > 0 ==> events[0] == RunEvent::Started
    &&& forall|i: int, j: int|
        0 <= i < events.len() && j == i + 1 && j < events.len() ==> answers(
            #[trigger] events[j],
            run_action(options, #[trigger] events[i]),
        )
}

/// The orphans are reclaimed first and once, whatever the options.
pub proof fn law_orphans_come_first(options: Options, events: Seq<RunEvent>, i: int)
    requires
        is_run(options, events),
        0 <= i < events.len(),
    ensures
        run_action(options, events[i]) == RunAction::ReclaimOrphans <==> i == 0,
{
    if i > 0 {
        assert(answers(events[i], run_action(options, events[i - 1])));
    }
}

/// The task asks for a new version only once the one before it has been gone
/// through and marked, unless space reclaiming is turned off: then no version is
/// gone through at all.
pub proof fn law_versions_are_gone_through(options: Options, events: Seq<RunEvent>, i: int)
    requires
        is_run(options, events),
        0 <= i < events.len(),
    ensures
        options.disable_space_reclaiming ==> run_action(options, events[i]) != RunAction::Reclaim
            && run_action(options, events[i]) != RunAction::MarkReclaimed,
        !options.disable_space_reclaiming && run_action(options, events[i])
            == RunAction::WaitNextVersion ==> {
            &&& i >= 3
            &&& run_action(options, events[i - 1]) == RunAction::MarkReclaimed
            &&& run_action(options, events[i - 2]) == RunAction::Reclaim
        },
{
    if i > 0 {
        assert(answers(events[i], run_action(options, events[i - 1])));
        if i > 1 {
            assert(answers(events[i - 1], run_action(options, events[i - 2])));
            if i > 2 {
                assert(answers(events[i - 2], run_action(options, events[i - 3])));
            }
        }
    }
}

/// What a writer that wants space does.
#[derive(Debug, Clone, Copy, PartialEq, Eq, Structural)]
pub enum WaitAction {
    /// Go on: space reclaiming is turned off.
    Skip,
    /// Go on: there is nothing to reclaim.
    Proceed(ReclaimTrace),
    /// Wait until the version has been gone through, then look at the next
    /// version, if there is one by then.
    Wait(ReclaimTrace),
}

/// What a writer does once the version that it waited for has been gone through.
#[derive(Debug, Clone, Copy, PartialEq, Eq, Structural)]
pub enum AfterWait {
    /// Look at the next version.
    LookAgain,
    /// Go on: there is no next version.
    Return,
}

/// Whether there is a reason to reclaim space in a version.
pub open spec fn is_reclaimable(options: Options, version: Version) -> bool {
    ReclaimProgress::measured(
        options,
        version.page_files@,
        version.map_files@,
        Set::<FileId>::empty(),
    ).reason() != ReclaimReason::NoReason
}

/// What a writer does about a version.
pub open spec fn wait_action(options: Options, version: Version) -> WaitAction {
    let trace = ReclaimProgress::measured(
        options,
        version.page_files@,
        version.map_files@,
        Set::<FileId>::empty(),
    ).trace();
    if options.disable_space_reclaiming {
        WaitAction::Skip
    } else if is_reclaimable(options, version) {
        WaitAction::Wait(trace)
    } else {
        WaitAction::Proceed(trace)
    }
}

/// What a writer does after the wait for a version.
pub open spec fn after_wait_action(has_next: bool) -> AfterWait {
    if has_next {
        AfterWait::LookAgain
    } else {
        AfterWait::Return
    }
}

/// Decides whether to wait until the running reclaiming has finished.
pub fn wait_for_reclaiming(options: &Options, version: &Version) -> (res: WaitAction)
    requires
        !options.disable_space_reclaiming ==> {
            let cleaned = Set::<FileId>::empty();
            &&& ReclaimProgress::measurable(version.page_files@, version.map_files@, cleaned)
            &&& ReclaimProgress::measured(
                *options,
                version.page_files@,
                version.map_files@,
                cleaned,
            ).decidable()
        },
    ensures
        res == wait_action(*options, *version),
{
    if options.disable_space_reclaiming {
        return WaitAction::Skip;
    }
    let progress = ReclaimProgress::new(options, version, &FileSet::new());
    let trace = progress.trace_log();
    if progress.is_reclaimable() {
        WaitAction::Wait(trace)
    } else {
        WaitAction::Proceed(trace)
    }
}

/// Decides what a writer does once the version that it waited for has been gone
/// through.
pub fn after_wait(has_next: bool) -> (res: AfterWait)
    ensures
        res == after_wait_action(has_next),
{
    if has_next {
        AfterWait::LookAgain
    } else {
        AfterWait::Return
    }
}

/// The versions that a writer looks at, one after the other. `has_next` tells for
/// each of them whether there is a next version once it has been gone through.
pub open spec fn is_wait(options: Options, versions: Seq<Version>, has_next: Seq<bool>) -> bool {
    &&& versions.len() > 0
    &&& has_next.len() == versions.len()
    &&& forall|i: int|
        0 <= i < versions.len() ==> (i + 1 < versions.len() <==> {
            &&& wait_action(options, #[trigger] versions[i]) is Wait
            &&& after_wait_action(has_next[i]) == AfterWait::LookAgain
        })
}

/// A writer waits for exactly the versions with space to reclaim, and goes on at
/// the first version that has none or no successor. If space reclaiming is turned
/// off, it goes on at once.
pub proof fn law_writers_wait_until_space_is_reclaimed(
    options: Options,
    versions: Seq<Version>,
    has_next: Seq<bool>,
    i: int,
)
    requires
        is_wait(options, versions, has_next),
        0 <= i < versions.len(),
    ensures
        wait_action(options, versions[i]) is Wait <==> !options.disable_space_reclaiming
            && is_reclaimable(options, versions[i]),
        i + 1 < versions.len() ==> is_reclaimable(options, versions[i]) && has_next[i],
        i + 1 == versions.len() ==> {
            ||| options.disable_space_reclaiming
            ||| !is_reclaimable(options, versions[i])
            ||| !has_next[i]
        },
        options.disable_space_reclaiming ==> versions.len() == 1,
{
    assert(wait_action(options, versions[0]) is Wait ==> !options.disable_space_reclaiming);
}

/// The task reclaims the orphans when it starts, goes through the version after that
/// and after every new one unless space reclaiming is turned off, marks what it has
/// gone through, waits for the next version, and stops at the shutdown and only then.
pub proof fn law_task_does_the_next_step(options: Options, event: RunEvent, action: RunAction)
    requires
        call_ensures(run, (&options, event), action),
    ensures
        event == RunEvent::Started <==> action == RunAction::ReclaimOrphans,
        event == RunEvent::Terminated <==> action == RunAction::Stop,
        event == RunEvent::Reclaimed <==> action == RunAction::MarkReclaimed,
        !options.disable_space_reclaiming && (event == RunEvent::OrphansReclaimed || event
            == RunEvent::NextVersion) <==> action == RunAction::Reclaim,
{
}

/// A writer waits exactly if space reclaiming is on and the progress of the version,
/// with nothing cleaned, gives a reason to reclaim. It is told that progress.
pub proof fn law_writer_waits_for_a_reason(
    options: Options,
    version: Version,
    cleaned_files: FileSet,
    progress: ReclaimProgress,
    trace: ReclaimTrace,
    res: WaitAction,
)
    requires
        forall|file: FileId| !(#[trigger] cleaned_files@.contains(file)),
        call_ensures(wait_for_reclaiming, (&options, &version), res),
        call_ensures(ReclaimProgress::new, (&options, &version, &cleaned_files), progress),
        call_ensures(ReclaimProgress::trace_log, (&progress,), trace),
    ensures
        options.disable_space_reclaiming <==> res == WaitAction::Skip,
        !options.disable_space_reclaiming && {
            ||| progress.space_used_high < progress.used_space && 2 * progress.file_base_size
                < progress.additional_size
            ||| 0 < progress.additional_size && progress.target_space_amp * progress.base_size
                <= progress.additional_size * 100
        } <==> res == WaitAction::Wait(trace),
        res is Wait || res == WaitAction::Skip || res == WaitAction::Proceed(trace),
        res is Wait ==> res == WaitAction::Wait(trace),
{
    assert(cleaned_files@ =~= Set::<FileId>::empty());
}

/// After the wait a writer looks at the next version exactly if there is one.
pub proof fn law_writer_looks_at_the_next_version(has_next: bool, res: AfterWait)
    requires
        call_ensures(after_wait, (has_next,), res),
    ensures
        has_next <==> res == AfterWait::LookAgain,
        !has_next <==> res == AfterWait::Return,
{
}

} // verus!
