//! Reclaiming the files that a strategy picks, until there is enough space.

use std::collections::HashSet;

use vstd::prelude::*;

use crate::files::{FileId, FileInfo};
use crate::job_builder::{PendingFiles, ReclaimJob, ReclaimJobBuilder};
use crate::options::Options;
use crate::progress::ReclaimProgress;

verus! {

/// The files among which a strategy picks.
#[derive(Debug)]
pub struct StrategyFiles {
    pub page_files: Vec<u32>,
    pub map_files: Vec<u32>,
}

/// Whether a strategy may pick a page file: it has live pages, is not virtual
/// and has not been cleaned.
pub open spec fn is_candidate(id: u32, info: FileInfo, cleaned: Set<FileId>) -> bool {
    &&& !cleaned.contains(FileId::Page(id))
    &&& info.active_pages@.len() > 0
    &&& info.map_file_id is None
}

/// What to do with a file that the strategy picked.
#[derive(Debug)]
pub enum StrategyAction {
    /// The strategy has nothing more to pick.
    Stop,
    /// The file waits for others.
    Defer,
    /// Rewrite a page file.
    Rewrite(u32),
    /// Compound a set of page files into a new map file.
    Compound(HashSet<u32>),
    /// Compact a set of map files into a new map file.
    Compact(HashSet<u32>),
}

/// What the loop over the picks waits for.
#[derive(Debug, Clone, Copy, PartialEq, Eq, Structural)]
pub enum StrategyPhase {
    /// The strategy is asked for a file.
    Picking,
    /// A pick is being dealt with.
    Working,
    /// The loop has come to its end.
    Stopped,
}

/// Reclaims the files that a strategy picks, one after the other.
#[derive(Debug)]
pub struct StrategyLoop {
    builder: ReclaimJobBuilder,
    phase: StrategyPhase,
}

/// The state of reclaiming the files that a strategy picks.
#[verifier::ext_equal]
pub struct StrategyView {
    /// The files that wait for others.
    pub pending: PendingFiles,
    pub phase: StrategyPhase,
}

/// What happens in the loop over the picks.
pub enum StrategyEvent {
    /// The strategy has picked a file with that much live data, or has nothing
    /// more to pick.
    Picked(Option<(FileId, nat)>),
    /// The pick has been dealt with, and it is time to see whether to go on.
    Tested { terminated: bool, has_next_version: bool, progress: ReclaimProgress },
}

impl View for StrategyLoop {
    type V = StrategyView;

    closed spec fn view(&self) -> StrategyView {
        StrategyView { pending: self.builder@, phase: self.phase }
    }
}

/// Whether to ask the strategy for another file: the store is not shutting down,
/// there is no newer version to look at, and there is still a reason to reclaim
/// space.
pub open spec fn continues(
    terminated: bool,
    has_next_version: bool,
    progress: ReclaimProgress,
) -> bool {
    &&& !terminated
    &&& !has_next_version
    &&& progress.high_space_usage() || progress.large_space_amp()
}

/// A pick, with its size as a number.
pub open spec fn pick_of(pick: Option<(FileId, usize)>) -> Option<(FileId, nat)> {
    match pick {
        Some((file, active_size)) => Some((file, active_size as nat)),
        None => None,
    }
}

impl StrategyView {
    /// Nothing has been picked yet.
    pub open spec fn start(options: Options) -> StrategyView {
        StrategyView {
            pending: PendingFiles::empty(
                options.separate_hot_cold_files,
                options.file_base_size as nat,
            ),
            phase: StrategyPhase::Picking,
        }
    }

    /// Whether it is time for the event.
    pub open spec fn expects(self, event: StrategyEvent) -> bool {
        match event {
            StrategyEvent::Picked(_) => self.phase == StrategyPhase::Picking,
            StrategyEvent::Tested { .. } => self.phase == StrategyPhase::Working,
        }
    }

    /// The state after an event. Once the loop has stopped, what waits for others
    /// stays behind.
    pub open spec fn after(self, event: StrategyEvent) -> StrategyView {
        match event {
            StrategyEvent::Picked(None) => StrategyView { phase: StrategyPhase::Stopped, ..self },
            StrategyEvent::Picked(Some((file, active_size))) => StrategyView {
                pending: self.pending.after(file, active_size),
                phase: StrategyPhase::Working,
            },
            StrategyEvent::Tested { terminated, has_next_version, progress } => StrategyView {
                phase: if continues(terminated, has_next_version, progress) {
                    StrategyPhase::Picking
                } else {
                    StrategyPhase::Stopped
                },
                ..self
            },
        }
    }

    /// The state after several events.
    pub open spec fn after_all(self, events: Seq<StrategyEvent>) -> StrategyView
        decreases events.len(),
    {
        if events.len() == 0 {
            self
        } else {
            self.after_all(events.drop_last()).after(events.last())
        }
    }
}

impl StrategyAction {
    /// The action carries out what adding the file to the pending ones leads to.
    pub open spec fn carries_out(self, pending: PendingFiles, file: FileId, active_size: nat) -> bool {
        match self {
            StrategyAction::Stop => false,
            StrategyAction::Defer => pending.job(file, active_size) is None,
            StrategyAction::Rewrite(id) => pending.job(file, active_size) == Some(
                crate::job_builder::JobView::Rewrite(id),
            ),
            StrategyAction::Compound(ids) => pending.job(file, active_size) == Some(
                crate::job_builder::JobView::Compound(ids@),
            ),
            StrategyAction::Compact(ids) => pending.job(file, active_size) == Some(
                crate::job_builder::JobView::Compact(ids@),
            ),
        }
    }
}

/// Starts reclaiming the files that a strategy picks.
pub fn reclaim_files_by_strategy(options: &Options) -> (res: StrategyLoop)
    ensures
        res@ == StrategyView::start(*options),
{
    StrategyLoop {
        builder: ReclaimJobBuilder::new(options.separate_hot_cold_files, options.file_base_size),
        phase: StrategyPhase::Picking,
    }
}

impl StrategyLoop {
    /// Whether a picked file can be dealt with.
    pub fn accepts(&self, file: FileId, active_size: usize) -> (res: bool)
        ensures
            res == self@.pending.accepts(file, active_size as nat),
    {
        self.builder.accepts(file, active_size)
    }

    /// Decides what to do with the file that the strategy picked.
    pub fn picked(&mut self, pick: Option<(FileId, usize)>) -> (res: StrategyAction)
        requires
            old(self)@.phase == StrategyPhase::Picking,
            pick matches Some((file, active_size)) ==> old(self)@.pending.accepts(
                file,
                active_size as nat,
            ),
        ensures
            match pick {
                None => res == StrategyAction::Stop,
                Some((file, active_size)) => res.carries_out(
                    old(self)@.pending,
                    file,
                    active_size as nat,
                ),
            },
            final(self)@ == old(self)@.after(StrategyEvent::Picked(pick_of(pick))),
    {
        match pick {
            None => {
                self.phase = StrategyPhase::Stopped;
                StrategyAction::Stop
            },
            Some((file, active_size)) => {
                self.phase = StrategyPhase::Working;
                match self.builder.add(file, active_size) {
                    None => StrategyAction::Defer,
                    Some(ReclaimJob::Rewrite(file_id)) => StrategyAction::Rewrite(file_id),
                    Some(ReclaimJob::Compound(victims)) => StrategyAction::Compound(victims),
                    Some(ReclaimJob::Compact(victims)) => StrategyAction::Compact(victims),
                }
            },
        }
    }

    /// The pick has been dealt with. Decides whether to ask the strategy for
    /// another file.
    pub fn goes_on(
        &mut self,
        terminated: bool,
        has_next_version: bool,
        progress: &ReclaimProgress,
    ) -> (res: bool)
        requires
            old(self)@.phase == StrategyPhase::Working,
            !terminated && !has_next_version ==> progress.decidable(),
        ensures
            res == continues(terminated, has_next_version, *progress),
            final(self)@ == old(self)@.after(
                StrategyEvent::Tested { terminated, has_next_version, progress: *progress },
            ),
    {
        let goes_on = !(terminated || has_next_version || !progress.is_reclaimable());
        self.phase = if goes_on {
            StrategyPhase::Picking
        } else {
            StrategyPhase::Stopped
        };
        goes_on
    }
}

/// A run of the loop: every event comes when it is time for it.
pub open spec fn is_strategy_run(options: Options, events: Seq<StrategyEvent>) -> bool {
    forall|i: int|
        0 <= i < events.len() ==> StrategyView::start(options).after_all(events.take(i)).expects(
            #[trigger] events[i],
        )
}

/// The files picked in a run, in order.
pub open spec fn picks_of(events: Seq<StrategyEvent>) -> Seq<(FileId, nat)>
    decreases events.len(),
{
    if events.len() == 0 {
        Seq::empty()
    } else {
        let before = picks_of(events.drop_last());
        match events.last() {
            StrategyEvent::Picked(Some(pick)) => before.push(pick),
            _ => before,
        }
    }
}

proof fn lemma_next_event(options: Options, events: Seq<StrategyEvent>, i: int)
    requires
        0 < i <= events.len(),
    ensures
        StrategyView::start(options).after_all(events.take(i)) == StrategyView::start(
            options,
        ).after_all(events.take(i - 1)).after(events[i - 1]),
{
    assert(events.take(i).drop_last() =~= events.take(i - 1));
    assert(events.take(i).last() == events[i - 1]);
}

/// The loop asks for another file only after a test that told it to go on, and
/// for the first file. Nothing follows when the strategy has nothing more to pick,
/// or when a test told the loop to stop.
pub proof fn law_picks_follow_the_tests(options: Options, events: Seq<StrategyEvent>, i: int)
    requires
        is_strategy_run(options, events),
        0 <= i < events.len(),
    ensures
        i == 0 ==> events[i] is Picked,
        i > 0 && events[i] is Picked ==> {
            &&& events[i - 1] matches StrategyEvent::Tested {
                terminated,
                has_next_version,
                progress,
            }
            &&& continues(terminated, has_next_version, progress)
        },
        events[i] is Tested ==> i > 0 && (events[i - 1] matches StrategyEvent::Picked(pick)
            && pick is Some),
        events[i] == StrategyEvent::Picked(None) ==> i + 1 == events.len(),
        events[i] matches StrategyEvent::Tested { terminated, has_next_version, progress } ==> (
        !continues(terminated, has_next_version, progress) ==> i + 1 == events.len()),
{
    let start = StrategyView::start(options);
    assert(start.after_all(events.take(i)).expects(events[i]));
    if i == 0 {
        assert(events.take(0) =~= Seq::empty());
    } else {
        lemma_next_event(options, events, i);
        assert(start.after_all(events.take(i - 1)).expects(events[i - 1]));
    }
    if i + 1 < events.len() {
        lemma_next_event(options, events, i + 1);
        assert(start.after_all(events.take(i + 1)).expects(events[i + 1]));
    }
}

/// What waits after a run is what waits after its picks.
proof fn lemma_pending_after_picks(options: Options, events: Seq<StrategyEvent>)
    ensures
        StrategyView::start(options).after_all(events).pending == StrategyView::start(
            options,
        ).pending.after_all(picks_of(events)),
    decreases events.len(),
{
    if events.len() > 0 {
        let rest = events.drop_last();
        lemma_pending_after_picks(options, rest);
        if let StrategyEvent::Picked(Some(pick)) = events.last() {
            assert(picks_of(events).drop_last() =~= picks_of(rest));
        }
    }
}

/// The files that still wait when a run ends are in no job of the run, as long as
/// no file is picked twice. They are exactly the picked files without a job.
pub proof fn law_waiting_files_get_no_job(
    options: Options,
    events: Seq<StrategyEvent>,
    file: FileId,
)
    requires
        is_strategy_run(options, events),
        forall|p: int, q: int|
            0 <= p < q < picks_of(events).len() ==> (#[trigger] picks_of(events)[p]).0 != (
            #[trigger] picks_of(events)[q]).0,
    ensures
        ({
            let start = StrategyView::start(options).pending;
            let end = StrategyView::start(options).after_all(events).pending;
            let picks = picks_of(events);
            let has_job = exists|i: int|
                0 <= i < picks.len() && (#[trigger] start.job_at(picks, i)) is Some
                    && start.job_at(picks, i)->0.files().contains(file);
            let is_picked = exists|i: int| 0 <= i < picks.len() && #[trigger] picks[i].0 == file;
            &&& end == start.after_all(picks)
            &&& end.files().contains(file) <==> is_picked && !has_job
        }),
{
    let start = StrategyView::start(options).pending;
    let picks = picks_of(events);
    let enable = options.separate_hot_cold_files;
    let target = options.file_base_size as nat;
    lemma_pending_after_picks(options, events);
    crate::job_builder::law_no_pick_is_lost(enable, target, picks, file);
    crate::job_builder::lemma_in_jobs(start, picks, file);
    assert(picks.take(picks.len() as int) =~= picks);
    assert forall|i: int|
        0 <= i < picks.len() && (#[trigger] start.job_at(picks, i)) is Some
            && start.job_at(picks, i)->0.files().contains(file) implies !start.after_all(
        picks,
    ).files().contains(file) by {
        crate::job_builder::law_no_file_is_in_two_jobs(
            enable,
            target,
            picks,
            i,
            picks.len() as int,
        );
    }
}

/// The loop goes on after a pick exactly if the store is not shutting down, there is
/// no newer version, and the progress gives a reason: the used space is above the
/// watermark and more than two files worth could be freed, or some space could be
/// freed and its ratio to the live data is at the target or above. What waits does
/// not change.
pub proof fn law_loop_goes_on_while_there_is_a_reason(
    picks: &mut StrategyLoop,
    terminated: bool,
    has_next_version: bool,
    progress: ReclaimProgress,
    res: bool,
)
    requires
        call_ensures(
            StrategyLoop::goes_on,
            (picks, terminated, has_next_version, &progress),
            res,
        ),
    ensures
        terminated || has_next_version ==> !res,
        !terminated && !has_next_version && progress.space_used_high < progress.used_space && 2
            * progress.file_base_size < progress.additional_size ==> res,
        !terminated && !has_next_version && 0 < progress.additional_size
            && progress.target_space_amp * progress.base_size <= progress.additional_size * 100
            ==> res,
        res ==> {
            ||| progress.space_used_high < progress.used_space && 2 * progress.file_base_size
                < progress.additional_size
            ||| 0 < progress.additional_size && progress.target_space_amp * progress.base_size
                <= progress.additional_size * 100
        },
        res <==> final(picks)@.phase == StrategyPhase::Picking,
        !res <==> final(picks)@.phase == StrategyPhase::Stopped,
        final(picks)@.pending == old(picks)@.pending,
{
}

/// The loop goes on exactly when the progress itself calls for reclaiming, unless the
/// store shuts down or there is a newer version.
pub proof fn law_loop_heeds_the_progress(
    picks: &mut StrategyLoop,
    terminated: bool,
    has_next_version: bool,
    progress: ReclaimProgress,
    res: bool,
    reclaimable: bool,
)
    requires
        call_ensures(
            StrategyLoop::goes_on,
            (picks, terminated, has_next_version, &progress),
            res,
        ),
        call_ensures(ReclaimProgress::is_reclaimable, (&progress,), reclaimable),
    ensures
        res <==> !terminated && !has_next_version && reclaimable,
{
}

/// The loop starts with nothing waiting and asks for a file. Files can wait for a map
/// file only if hot and cold files are separated, until they reach the base size.
pub proof fn law_loop_starts_empty(options: Options, picks: StrategyLoop)
    requires
        call_ensures(reclaim_files_by_strategy, (&options,), picks),
    ensures
        picks@.phase == StrategyPhase::Picking,
        picks@.pending.enable == options.separate_hot_cold_files,
        picks@.pending.target_file_base == options.file_base_size,
        picks@.pending.compound_size == 0,
        picks@.pending.compact_size == 0,
        forall|id: u32| !(#[trigger] picks@.pending.compound_files.contains(id)),
        forall|id: u32| !(#[trigger] picks@.pending.compact_files.contains(id)),
{
}

/// The loop does with a pick what a builder with the same files waiting does.
pub proof fn law_loop_follows_the_builder(
    picks: &mut StrategyLoop,
    builder: &mut ReclaimJobBuilder,
    file: FileId,
    active_size: usize,
    action: StrategyAction,
    job: Option<ReclaimJob>,
)
    requires
        old(picks)@.pending == old(builder)@,
        call_ensures(StrategyLoop::picked, (picks, Some((file, active_size))), action),
        call_ensures(ReclaimJobBuilder::add, (builder, file, active_size), job),
    ensures
        final(picks)@.pending == final(builder)@,
        final(picks)@.phase == StrategyPhase::Working,
        match job {
            None => action is Defer,
            Some(ReclaimJob::Rewrite(id)) => action == StrategyAction::Rewrite(id),
            Some(ReclaimJob::Compound(victims)) => action matches StrategyAction::Compound(ids)
                && ids@ == victims@,
            Some(ReclaimJob::Compact(victims)) => action matches StrategyAction::Compact(ids)
                && ids@ == victims@,
        },
{
}

/// The loop stops when the strategy has nothing to pick, and at no other pick. What
/// waits then stays behind.
pub proof fn law_loop_stops_without_a_pick(
    picks: &mut StrategyLoop,
    pick: Option<(FileId, usize)>,
    action: StrategyAction,
)
    requires
        call_ensures(StrategyLoop::picked, (picks, pick), action),
    ensures
        action is Stop <==> pick is None,
        pick is None ==> final(picks)@.pending == old(picks)@.pending && final(picks)@.phase
            == StrategyPhase::Stopped,
{
}

/// The loop accepts the picks that its builder accepts.
pub proof fn law_loop_accepts_what_the_builder_accepts(
    picks: StrategyLoop,
    builder: ReclaimJobBuilder,
    file: FileId,
    active_size: usize,
    res: bool,
    accepted: bool,
)
    requires
        picks@.pending == builder@,
        call_ensures(StrategyLoop::accepts, (&picks, file, active_size), res),
        call_ensures(ReclaimJobBuilder::accepts, (&builder, file, active_size), accepted),
    ensures
        res == accepted,
{
}

} // verus!
