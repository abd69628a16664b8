//! What holds of a whole archive pass, from its start to any later point.

use crate::archiver::{
    archive_filename, camera_selection, config_error, filename_result, lookback_range,
    lookback_stops_short_of_recent_footage,
    range_at, requested_camera, segment_after, selection_is_by_id_or_name, ArchiveOptions,
    ArchiveRange,
};
use crate::config::Config;
use crate::error::ArchiveError;
use crate::pass::{
    progress_of, ArchiveProgress, PassEvent, PassOrder, PassStage, PassState,
};
use crate::protect::{ArchiveTask, Camera, PendingArchive};
use crate::timestamp::{FIRST_SECOND, LAST_SECOND};
use vstd::prelude::*;

verus! {

/// A pass up to some point: what the clock showed when it settled its range, the events that came,
/// what the pass ordered on each of them, and the states before, between and after them.
pub struct PassRun {
    pub now: int,
    pub states: Seq<PassState>,
    pub events: Seq<PassEvent>,
    pub orders: Seq<PassOrder>,
}

impl PassRun {
    /// Whether event `i` could come, and the pass did what it does on it.
    pub open spec fn step_at(self, i: int) -> bool {
        &&& self.states[i].expects(self.events[i])
        &&& self.states[i].stepped(self.events[i], self.now) == (self.states[i + 1], self.orders[i])
    }

    /// Whether this is a pass that started with a configuration and options.
    pub open spec fn started_with(self, config: Config, options: ArchiveOptions) -> bool {
        &&& config_error(&config, &options) is None
        &&& FIRST_SECOND <= self.now <= LAST_SECOND
        &&& self.states.len() == self.events.len() + 1
        &&& self.orders.len() == self.events.len()
        &&& self.states[0] == PassState::initial(config, options)
        &&& forall|i: int| 0 <= i < self.events.len() ==> #[trigger] self.step_at(i)
    }

    /// Whether event `i` lists the pending archives, and the one with an id is not among them.
    pub open spec fn shows_left(self, i: int, file_id: Seq<char>) -> bool {
        match self.events[i] {
            PassEvent::Pending(pending) => forall|k: int|
                0 <= k < pending@.len() ==> (#[trigger] pending@[k]).id@ != file_id,
            _ => false,
        }
    }

    /// Whether the archive that order `j` asked for is accounted for by the events before `n`: the
    /// answer had no id to follow, or the pending archives no longer had that id.
    pub open spec fn archive_left(self, j: int, n: int) -> bool {
        j + 1 < n && match self.events[j + 1] {
            PassEvent::Submitted(task) => match task.file_id {
                Some(file_id) => exists|i: int|
                    j + 1 < i && i < n && #[trigger] self.shows_left(i, file_id@),
                None => true,
            },
            _ => false,
        }
    }

    /// Whether one of the events after `j` and before `n` says that footage was deleted.
    pub open spec fn deletion_done(self, j: int, n: int) -> bool {
        exists|i: int| j < i < n && #[trigger] self.events[i] is Deleted
    }
}

/// An archive is taken to have left the pending ones exactly if no entry has its id.
pub proof fn an_archive_left_exactly_if_no_entry_has_its_id(
    pending: Seq<PendingArchive>,
    file_id: Seq<char>,
)
    ensures
        progress_of(pending, file_id) == ArchiveProgress::Left <==> forall|i: int|
            0 <= i < pending.len() ==> (#[trigger] pending[i]).id@ != file_id,
    decreases pending.len(),
{
    if pending.len() > 0 {
        let rest = pending.drop_first();
        an_archive_left_exactly_if_no_entry_has_its_id(rest, file_id);
        assert forall|i: int| 1 <= i < pending.len() implies #[trigger] pending[i] == rest[i - 1] by {}
        if pending[0].id@ != file_id {
            assert(progress_of(pending, file_id) == progress_of(rest, file_id));
            if forall|i: int| 0 <= i < pending.len() ==> (#[trigger] pending[i]).id@ != file_id {
                assert forall|i: int| 0 <= i < rest.len() implies (#[trigger] rest[i]).id@
                    != file_id by {
                    assert(pending[i + 1].id@ != file_id);
                }
            }
        }
    }
}

/// The first entry with the id of an archive says how the archive stands: it failed if its status is
/// `failed`, it was canceled if its status is `canceled` or `canceledPending`, and with any other
/// status, or none, it is pending.
pub proof fn the_first_entry_says_how_an_archive_stands(
    pending: Seq<PendingArchive>,
    file_id: Seq<char>,
    k: int,
)
    requires
        0 <= k < pending.len(),
        pending[k].id@ == file_id,
        forall|i: int| 0 <= i < k ==> (#[trigger] pending[i]).id@ != file_id,
    ensures
        progress_of(pending, file_id) == ArchiveProgress::Failed <==> pending[k].status is Some
            && pending[k].status->0@ == "failed"@,
        progress_of(pending, file_id) == ArchiveProgress::Canceled <==> pending[k].status is Some
            && (pending[k].status->0@ == "canceled"@ || pending[k].status->0@
            == "canceledPending"@),
        progress_of(pending, file_id) != ArchiveProgress::Left,
    decreases k,
{
    reveal_strlit("failed");
    reveal_strlit("canceled");
    reveal_strlit("canceledPending");
    assert("failed"@.len() != "canceled"@.len());
    assert("failed"@.len() != "canceledPending"@.len());
    if k > 0 {
        let rest = pending.drop_first();
        assert(pending[0].id@ != file_id);
        assert forall|i: int| 0 <= i < k - 1 implies (#[trigger] rest[i]).id@ != file_id by {
            assert(pending[i + 1].id@ != file_id);
        }
        the_first_entry_says_how_an_archive_stands(rest, file_id, k - 1);
    }
}

/// What can come of going on: the pass orders an archive, or is done, or gave up.
proof fn lemma_advanced(state: PassState)
    requires
        state.accepted(),
    ensures
        ({
            let (next, order) = state.advanced();
            &&& next.well_formed()
            &&& next.config == state.config
            &&& next.options == state.options
            &&& next.cameras == state.cameras
            &&& next.range == state.range
            &&& next.archive_count == state.archive_count
            &&& next.delete_count == state.delete_count
            &&& match order {
                PassOrder::Submit { camera, start_ms, end_ms, .. } => {
                    &&& next.stage is Submitting
                    &&& camera == next.cameras[next.camera_index]
                    &&& start_ms == next.start_ms
                    &&& end_ms == next.segment_end()
                },
                PassOrder::Finish { camera_count, archive_count, delete_count } => {
                    &&& next.stage is Finished
                    &&& camera_count == state.cameras.len()
                    &&& archive_count == state.archive_count
                    &&& delete_count == state.delete_count
                },
                PassOrder::Fail { .. } => next.stage is Failed,
                _ => false,
            }
        }),
    decreases state.cameras.len() - state.camera_index,
{
    if state.camera_index < state.cameras.len() {
        let next = PassState {
            camera_index: state.camera_index + 1,
            start_ms: state.range.start_ms as int,
            ..state
        };
        lemma_advanced(next);
    }
}

/// The state from which the pass goes on after an event, if it does: with the first of the selected
/// cameras, or with what follows the segment in work.
spec fn resumed(state: PassState, event: PassEvent, now: int) -> PassState {
    match event {
        PassEvent::Cameras(cameras) => {
            let range = range_at(&state.config, &state.options, now)->0;
            PassState {
                cameras: camera_selection(cameras@, state.requested()),
                range,
                camera_index: 0,
                start_ms: range.start_ms as int,
                ..state
            }
        },
        _ => PassState {
            archive_count: state.archive_count + 1,
            delete_count: state.delete_count + (if state.deletes() { 1int } else { 0int }),
            start_ms: state.segment_end(),
            ..state
        },
    }
}

/// Every step keeps a pass well formed, and its configuration and options.
proof fn lemma_step(state: PassState, event: PassEvent, now: int)
    requires
        state.well_formed(),
        state.expects(event),
    ensures
        state.stepped(event, now).0.well_formed(),
        state.stepped(event, now).0.config == state.config,
        state.stepped(event, now).0.options == state.options,
{
    lemma_advanced(resumed(state, event, now));
}

/// Every state of a pass is well formed and has its configuration and options.
pub proof fn every_state_is_well_formed(
    run: PassRun,
    config: Config,
    options: ArchiveOptions,
    n: int,
)
    requires
        run.started_with(config, options),
        0 <= n <= run.events.len(),
    ensures
        run.states[n].well_formed(),
        run.states[n].config == config,
        run.states[n].options == options,
    decreases n,
{
    if n > 0 {
        every_state_is_well_formed(run, config, options, n - 1);
        assert(run.step_at(n - 1));
        lemma_step(run.states[n - 1], run.events[n - 1], run.now);
    }
}

/// Once a pass has finished or given up, nothing follows.
pub proof fn nothing_follows_the_end(run: PassRun, config: Config, options: ArchiveOptions, k: int)
    requires
        run.started_with(config, options),
        0 <= k < run.orders.len(),
        run.orders[k] is Finish || run.orders[k] is Fail,
    ensures
        k == run.orders.len() - 1,
{
    every_state_is_well_formed(run, config, options, k);
    assert(run.step_at(k));
    lemma_advanced(resumed(run.states[k], run.events[k], run.now));
    if k + 1 < run.orders.len() {
        assert(run.step_at(k + 1));
    }
}

impl PassRun {
    /// Whether, after `n` events, nothing is left to do about the archive that order `j` asked for.
    spec fn settled(self, j: int, n: int) -> bool {
        self.archive_left(j, n) && (self.states[0].deletes() ==> self.deletion_done(j, n))
    }

    /// How the archive that order `j` asked for stands after `n` events.
    spec fn archive_stands(self, j: int, n: int) -> bool {
        ||| self.settled(j, n)
        ||| match self.states[n].stage {
            PassStage::Failed => true,
            PassStage::Submitting { .. } => n == j + 1,
            PassStage::Waiting { file_id, .. } => {
                &&& j + 1 < n
                &&& self.events[j + 1] matches PassEvent::Submitted(task)
                &&& task.file_id == Some(file_id)
            },
            PassStage::Deleting { .. } => self.archive_left(j, n),
            _ => false,
        }
    }
}

proof fn lemma_archive_left(run: PassRun, task: ArchiveTask, j: int, i: int, n: int)
    requires
        j + 1 < i < n,
        run.events[j + 1] == PassEvent::Submitted(task),
        task.file_id is Some,
        run.shows_left(i, task.file_id->0@),
    ensures
        run.archive_left(j, n),
{
}

proof fn lemma_archive_stands(
    run: PassRun,
    config: Config,
    options: ArchiveOptions,
    j: int,
    n: int,
)
    requires
        run.started_with(config, options),
        config.wait_for_archive_completion,
        0 <= j < n <= run.events.len(),
        run.orders[j] is Submit,
    ensures
        run.archive_stands(j, n),
    decreases n,
{
    every_state_is_well_formed(run, config, options, n - 1);
    assert(run.step_at(n - 1));
    let state = run.states[n - 1];
    let event = run.events[n - 1];
    lemma_advanced(resumed(state, event, run.now));
    if n > j + 1 {
        lemma_archive_stands(run, config, options, j, n - 1);
        if run.archive_left(j, n - 1) {
            assert(run.archive_left(j, n));
        }
        if run.deletion_done(j, n - 1) {
            assert(run.deletion_done(j, n));
        }
        if event is Deleted {
            assert(run.events[n - 1] is Deleted);
        }
        if let PassEvent::Pending(pending) = event {
            let file_id = state.stage->Waiting_file_id;
            if progress_of(pending@, file_id@) == ArchiveProgress::Left {
                an_archive_left_exactly_if_no_entry_has_its_id(pending@, file_id@);
                assert(run.shows_left(n - 1, file_id@));
                if !run.settled(j, n - 1) {
                    lemma_archive_left(run, run.events[j + 1]->Submitted_0, j, n - 1, n);
                }
            }
        }
    }
}

/// Whether or not the pass waits for its archives, nothing comes between an archive request and its
/// answer: no other request is made until the console answered this one, or it failed.
pub proof fn archive_requests_are_answered_one_at_a_time(
    run: PassRun,
    config: Config,
    options: ArchiveOptions,
    j: int,
)
    requires
        run.started_with(config, options),
        0 <= j && j + 1 < run.events.len(),
        run.orders[j] is Submit,
    ensures
        run.events[j + 1] is Submitted || run.events[j + 1] is Failed,
{
    every_state_is_well_formed(run, config, options, j);
    assert(run.step_at(j));
    lemma_advanced(resumed(run.states[j], run.events[j], run.now));
    assert(run.step_at(j + 1));
}

/// Archives are made one at a time. Before the next one is asked for, the one before is accounted
/// for (it has left the pending archives, if its answer had an id to follow), and its footage is
/// deleted, if the pass deletes.
pub proof fn archives_are_made_one_at_a_time(
    run: PassRun,
    config: Config,
    options: ArchiveOptions,
    j: int,
    k: int,
)
    requires
        run.started_with(config, options),
        config.wait_for_archive_completion,
        0 <= j < k < run.orders.len(),
        run.orders[j] is Submit,
        run.orders[k] is Submit,
    ensures
        run.archive_left(j, k + 1),
        config.delete_after_archive || options.delete_after_archive ==> run.deletion_done(j, k + 1),
{
    every_state_is_well_formed(run, config, options, k);
    assert(run.step_at(k));
    lemma_advanced(resumed(run.states[k], run.events[k], run.now));
    lemma_archive_stands(run, config, options, j, k + 1);
}

/// Whether an order asks for the archive of the segment that a pass has in work.
spec fn asks_for_segment(order: PassOrder, state: PassState) -> bool {
    match order {
        PassOrder::Submit { camera, start_ms, end_ms, .. } => {
            &&& camera == state.cameras[state.camera_index]
            &&& start_ms == state.start_ms
            &&& end_ms == state.segment_end()
        },
        _ => false,
    }
}

impl PassRun {
    /// Whether order `j` asked for the archive that the pass waits for after `n` events, and is the
    /// last one that asked for an archive.
    spec fn awaited(self, j: int, n: int) -> bool {
        &&& 0 <= j && j + 1 < n
        &&& asks_for_segment(self.orders[j], self.states[n])
        &&& self.events[j + 1] is Submitted
        &&& self.events[j + 1]->Submitted_0.file_id == Some(self.states[n].stage->Waiting_file_id)
        &&& forall|m: int| j < m < n ==> !(#[trigger] self.orders[m] is Submit)
    }
}

proof fn lemma_awaited(run: PassRun, config: Config, options: ArchiveOptions, n: int)
    requires
        run.started_with(config, options),
        0 <= n <= run.events.len(),
    ensures
        run.states[n].stage is Submitting ==> n > 0 && asks_for_segment(
            run.orders[n - 1],
            run.states[n],
        ),
        run.states[n].stage is Waiting ==> exists|j: int| run.awaited(j, n),
    decreases n,
{
    if n > 0 {
        lemma_awaited(run, config, options, n - 1);
        every_state_is_well_formed(run, config, options, n - 1);
        assert(run.step_at(n - 1));
        lemma_advanced(resumed(run.states[n - 1], run.events[n - 1], run.now));
        if run.states[n].stage is Waiting {
            if run.events[n - 1] is Submitted {
                assert(run.awaited(n - 2, n));
            } else {
                let before = n - 1;
                let j = choose|j: int| run.awaited(j, before);
                assert(run.awaited(j, n));
            }
        }
    }
}

/// Footage is deleted only when the pending archives no longer show its archive: the archive of
/// exactly this footage (the same camera, the same start and the same end) that was asked for last,
/// whose answer had an id to follow it by.
pub proof fn deletion_follows_its_archive(
    run: PassRun,
    config: Config,
    options: ArchiveOptions,
    k: int,
) -> (j: int)
    requires
        run.started_with(config, options),
        0 <= k < run.orders.len(),
        run.orders[k] is Delete,
    ensures
        0 <= j && j + 1 < k,
        run.orders[j] is Submit,
        run.orders[j]->Submit_camera == run.orders[k]->Delete_camera,
        run.orders[j]->Submit_start_ms == run.orders[k]->Delete_start_ms,
        run.orders[j]->Submit_end_ms == run.orders[k]->Delete_end_ms,
        run.events[j + 1] is Submitted,
        run.events[j + 1]->Submitted_0.file_id is Some,
        run.shows_left(k, run.events[j + 1]->Submitted_0.file_id->0@),
        forall|m: int| j < m < k ==> !(#[trigger] run.orders[m] is Submit),
{
    every_state_is_well_formed(run, config, options, k);
    assert(run.step_at(k));
    lemma_advanced(resumed(run.states[k], run.events[k], run.now));
    lemma_awaited(run, config, options, k);
    let j = choose|j: int| run.awaited(j, k);
    let file_id = run.events[j + 1]->Submitted_0.file_id->0@;
    an_archive_left_exactly_if_no_entry_has_its_id(run.events[k]->Pending_0@, file_id);
    j
}

/// The footage of a camera between two instants.
#[verifier::ext_equal]
pub struct Footage {
    pub camera: Camera,
    pub start_ms: int,
    pub end_ms: int,
}

/// The footage whose archive was asked for, in order.
pub open spec fn submitted(orders: Seq<PassOrder>) -> Seq<Footage>
    decreases orders.len(),
{
    if orders.len() == 0 {
        seq![]
    } else {
        let before = submitted(orders.drop_last());
        match orders.last() {
            PassOrder::Submit { camera, start_ms, end_ms, .. } => before.push(
                Footage { camera, start_ms, end_ms },
            ),
            _ => before,
        }
    }
}

/// The footage whose deletion was asked for, in order.
pub open spec fn deleted(orders: Seq<PassOrder>) -> Seq<Footage>
    decreases orders.len(),
{
    if orders.len() == 0 {
        seq![]
    } else {
        let before = deleted(orders.drop_last());
        match orders.last() {
            PassOrder::Delete { camera, start_ms, end_ms } => before.push(
                Footage { camera, start_ms, end_ms },
            ),
            _ => before,
        }
    }
}

impl PassRun {
    /// What was asked for and deleted after `n` events, as the state accounts for it.
    spec fn accounted(self, n: int) -> bool {
        let state = self.states[n];
        let archives = submitted(self.orders.take(n));
        let deletions = deleted(self.orders.take(n));
        &&& !state.deletes() ==> deletions.len() == 0
        &&& match state.stage {
            PassStage::Failed => deletions.is_prefix_of(archives),
            PassStage::Selecting | PassStage::Finished => {
                &&& archives.len() == state.archive_count
                &&& state.deletes() ==> deletions == archives
            },
            _ => {
                &&& archives.len() == state.archive_count + 1
                &&& archives.last() == (Footage {
                    camera: state.cameras[state.camera_index],
                    start_ms: state.start_ms,
                    end_ms: state.segment_end(),
                })
                &&& state.deletes() ==> deletions == (if state.stage is Deleting {
                    archives
                } else {
                    archives.drop_last()
                })
            },
        }
    }
}

proof fn lemma_accounted(run: PassRun, config: Config, options: ArchiveOptions, n: int)
    requires
        run.started_with(config, options),
        0 <= n <= run.events.len(),
    ensures
        run.accounted(n),
    decreases n,
{
    every_state_is_well_formed(run, config, options, n);
    if n > 0 {
        lemma_accounted(run, config, options, n - 1);
        every_state_is_well_formed(run, config, options, n - 1);
        assert(run.step_at(n - 1));
        lemma_advanced(resumed(run.states[n - 1], run.events[n - 1], run.now));
        assert(run.orders.take(n).drop_last() =~= run.orders.take(n - 1));
        assert(run.orders.take(n).last() == run.orders[n - 1]);
        let archives = submitted(run.orders.take(n - 1));
        assert(archives.is_prefix_of(archives));
        if run.states[n - 1].in_segment() {
            assert(archives.drop_last().is_prefix_of(archives));
        }
        if run.orders[n - 1] is Delete {
            assert(archives.drop_last().push(archives.last()) =~= archives);
        }
        if run.orders[n - 1] is Submit {
            assert(submitted(run.orders.take(n)).drop_last() =~= archives);
        }
    }
}

/// Whatever was deleted was archived before, in the same order: the deletions that were asked for
/// are the first of the archives that were asked for. Without deletion there are none.
pub proof fn only_archived_footage_is_deleted(
    run: PassRun,
    config: Config,
    options: ArchiveOptions,
)
    requires
        run.started_with(config, options),
    ensures
        deleted(run.orders).is_prefix_of(submitted(run.orders)),
        !config.delete_after_archive && !options.delete_after_archive ==> deleted(run.orders).len()
            == 0,
{
    let n = run.events.len() as int;
    lemma_accounted(run, config, options, n);
    every_state_is_well_formed(run, config, options, n);
    assert(run.orders.take(n) =~= run.orders);
    let archives = submitted(run.orders);
    assert(archives.is_prefix_of(archives));
    if run.states[n].in_segment() {
        assert(archives.drop_last().is_prefix_of(archives));
    }
}

/// The report of a pass counts the archives and the deletions that it asked for; a pass that
/// deletes has then deleted all that it archived.
pub proof fn the_report_counts_what_was_done(
    run: PassRun,
    config: Config,
    options: ArchiveOptions,
)
    requires
        run.started_with(config, options),
        run.orders.len() > 0,
        run.orders.last() is Finish,
    ensures
        run.orders.last()->Finish_archive_count == submitted(run.orders).len(),
        run.orders.last()->Finish_delete_count == deleted(run.orders).len(),
        config.delete_after_archive || options.delete_after_archive ==> deleted(run.orders)
            == submitted(run.orders),
{
    let n = run.events.len() as int;
    lemma_accounted(run, config, options, n);
    every_state_is_well_formed(run, config, options, n);
    every_state_is_well_formed(run, config, options, n - 1);
    assert(run.step_at(n - 1));
    lemma_advanced(resumed(run.states[n - 1], run.events[n - 1], run.now));
    assert(run.orders.take(n) =~= run.orders);
}

/// The segments of a camera between two instants: one after the other, each `segment_ms` long or
/// shorter at the end. What is left at the end is no segment if it is a second or less.
pub open spec fn segments(camera: Camera, start_ms: int, end_ms: int, segment_ms: int) -> Seq<
    Footage,
>
    decreases end_ms - start_ms,
{
    if segment_ms <= 0 || start_ms + 1000 >= end_ms {
        seq![]
    } else {
        let until = if start_ms + segment_ms < end_ms {
            start_ms + segment_ms
        } else {
            end_ms
        };
        seq![Footage { camera, start_ms, end_ms: until }] + segments(
            camera,
            until,
            end_ms,
            segment_ms,
        )
    }
}

/// The segments of a camera in a range; none if the camera is not connected.
pub open spec fn camera_plan(camera: Camera, range: ArchiveRange, segment_ms: int) -> Seq<Footage> {
    if camera.is_connected == Some(false) {
        seq![]
    } else {
        segments(camera, range.start_ms as int, range.end_ms as int, segment_ms)
    }
}

/// The segments of cameras in a range, camera by camera.
pub open spec fn plan(cameras: Seq<Camera>, range: ArchiveRange, segment_ms: int) -> Seq<Footage>
    decreases cameras.len(),
{
    if cameras.len() == 0 {
        seq![]
    } else {
        camera_plan(cameras[0], range, segment_ms) + plan(cameras.drop_first(), range, segment_ms)
    }
}

/// The segments of a range cover it without a gap and without an overlap, from its start to its end
/// or at most a second before. Each but the last is `segment_ms` long, and the last is no longer.
/// There are none exactly if the range is a second long or shorter.
pub proof fn segments_cover_the_range(
    camera: Camera,
    start_ms: int,
    end_ms: int,
    segment_ms: int,
)
    requires
        segment_ms > 0,
    ensures
        ({
            let parts = segments(camera, start_ms, end_ms, segment_ms);
            &&& parts.len() == 0 <==> start_ms + 1000 >= end_ms
            &&& parts.len() > 0 ==> parts[0].start_ms == start_ms
            &&& parts.len() > 0 ==> end_ms - 1000 <= parts.last().end_ms <= end_ms
            &&& forall|i: int|
                0 <= i < parts.len() ==> (#[trigger] parts[i]).camera == camera && 0
                    < parts[i].end_ms - parts[i].start_ms <= segment_ms
            &&& forall|i: int, k: int|
                0 <= i && k == i + 1 && k < parts.len() ==> (#[trigger] parts[i]).end_ms == (
                #[trigger] parts[k]).start_ms && parts[i].end_ms - parts[i].start_ms == segment_ms
        }),
    decreases end_ms - start_ms,
{
    if start_ms + 1000 < end_ms {
        let until = if start_ms + segment_ms < end_ms {
            start_ms + segment_ms
        } else {
            end_ms
        };
        segments_cover_the_range(camera, until, end_ms, segment_ms);
        let rest = segments(camera, until, end_ms, segment_ms);
        let parts = segments(camera, start_ms, end_ms, segment_ms);
        assert(parts.len() == rest.len() + 1);
        assert forall|i: int| 1 <= i < parts.len() implies #[trigger] parts[i] == rest[i - 1] by {}
        assert(parts[0] == Footage { camera, start_ms, end_ms: until });
        if rest.len() > 0 {
            assert(parts.last() == rest.last());
        }
    }
}

/// The length of a segment in milliseconds.
pub open spec fn segment_length(config: Config) -> int {
    config.segment_seconds * 1000
}

/// What is planned from `start_ms` of the camera in work on.
spec fn planned(state: PassState, start_ms: int) -> Seq<Footage> {
    let length = segment_length(state.config);
    if state.camera_index >= state.cameras.len() {
        seq![]
    } else {
        let camera = state.cameras[state.camera_index];
        (if camera.is_connected == Some(false) {
            seq![]
        } else {
            segments(camera, start_ms, state.range.end_ms as int, length)
        }) + plan(state.cameras.skip(state.camera_index + 1), state.range, length)
    }
}

proof fn lemma_plan_skip(cameras: Seq<Camera>, range: ArchiveRange, segment_ms: int, index: int)
    requires
        0 <= index < cameras.len(),
    ensures
        plan(cameras.skip(index), range, segment_ms) == camera_plan(
            cameras[index],
            range,
            segment_ms,
        ) + plan(cameras.skip(index + 1), range, segment_ms),
{
    assert(cameras.skip(index).drop_first() =~= cameras.skip(index + 1));
}

/// Going on takes the first of what is planned, and finishes only when nothing is.
proof fn lemma_advanced_plan(state: PassState)
    requires
        state.accepted(),
    ensures
        ({
            let (next, order) = state.advanced();
            match order {
                PassOrder::Submit { camera, start_ms, end_ms, .. } => {
                    &&& camera == next.cameras[next.camera_index]
                    &&& camera.is_connected != Some(false)
                    &&& planned(state, state.start_ms) == seq![Footage { camera, start_ms, end_ms }]
                        + planned(next, next.segment_end())
                },
                PassOrder::Finish { .. } => planned(state, state.start_ms).len() == 0,
                _ => true,
            }
        }),
    decreases state.cameras.len() - state.camera_index,
{
    lemma_advanced(state);
    let length = segment_length(state.config);
    if state.camera_index < state.cameras.len() {
        let camera = state.cameras[state.camera_index];
        let next = PassState {
            camera_index: state.camera_index + 1,
            start_ms: state.range.start_ms as int,
            ..state
        };
        lemma_advanced_plan(next);
        if next.camera_index < next.cameras.len() {
            lemma_plan_skip(state.cameras, state.range, length, next.camera_index);
        } else {
            assert(state.cameras.skip(next.camera_index) =~= seq![]);
        }
        assert(planned(next, next.start_ms) =~= plan(
            state.cameras.skip(next.camera_index),
            state.range,
            length,
        ));
        if camera.is_connected == Some(false) || segment_after(
            state.start_ms,
            state.range.end_ms as int,
            state.config.segment_seconds,
        ) is Exhausted {
            assert(planned(state, state.start_ms) =~= planned(next, next.start_ms));
        } else if let PassOrder::Submit { start_ms, end_ms, .. } = state.advanced().1 {
            let last = state.advanced().0;
            assert(planned(state, state.start_ms) =~= seq![Footage { camera, start_ms, end_ms }]
                + planned(last, last.segment_end()));
        }
    }
}

impl PassRun {
    /// The selected cameras, as the first event settles them.
    pub open spec fn selected(self) -> Seq<Camera> {
        camera_selection(self.events[0]->Cameras_0@, self.states[0].requested())
    }

    /// The range of the pass: the requested one, or else the lookback from what the clock showed.
    pub open spec fn range(self) -> Option<ArchiveRange> {
        range_at(&self.states[0].config, &self.states[0].options, self.now)
    }

    /// What the pass is to archive: the segments of its range, for the selected cameras.
    pub open spec fn whole_plan(self) -> Seq<Footage> {
        plan(self.selected(), self.range()->0, segment_length(self.states[0].config))
    }

    /// What was asked for after `n` events, as part of the plan.
    spec fn on_plan(self, n: int) -> bool {
        let state = self.states[n];
        let archives = submitted(self.orders.take(n));
        match state.stage {
            PassStage::Failed => archives.is_prefix_of(self.whole_plan()),
            PassStage::Selecting => false,
            PassStage::Finished => state.cameras == self.selected() && archives
                == self.whole_plan(),
            _ => {
                &&& state.cameras == self.selected()
                &&& state.cameras[state.camera_index].is_connected != Some(false)
                &&& archives + planned(state, state.segment_end()) == self.whole_plan()
            },
        }
    }
}

proof fn lemma_on_plan(run: PassRun, config: Config, options: ArchiveOptions, n: int)
    requires
        run.started_with(config, options),
        0 < n <= run.events.len(),
        run.events[0] is Cameras,
    ensures
        run.on_plan(n),
    decreases n,
{
    every_state_is_well_formed(run, config, options, n - 1);
    assert(run.step_at(n - 1));
    let state = run.states[n - 1];
    let going_on = resumed(state, run.events[n - 1], run.now);
    lemma_advanced(going_on);
    lemma_advanced_plan(going_on);
    assert(run.orders.take(n).drop_last() =~= run.orders.take(n - 1));
    assert(run.orders.take(n).last() == run.orders[n - 1]);
    let archives = submitted(run.orders.take(n - 1));
    let length = segment_length(config);
    if n == 1 {
        assert(archives =~= seq![]);
        assert(going_on.cameras.skip(0) =~= going_on.cameras);
        if going_on.cameras.len() > 0 {
            lemma_plan_skip(going_on.cameras, going_on.range, length, 0);
        }
        assert(planned(going_on, going_on.start_ms) =~= run.whole_plan());
    } else {
        lemma_on_plan(run, config, options, n - 1);
    }
    let after = planned(run.states[n], run.states[n].segment_end());
    if run.orders[n - 1] is Submit {
        assert(submitted(run.orders.take(n)) + after =~= archives + planned(
            going_on,
            going_on.start_ms,
        ));
    }
    if run.states[n].stage is Failed {
        assert(archives.is_prefix_of(archives + planned(state, state.segment_end())));
        assert(archives.is_prefix_of(run.whole_plan()));
    }
    if run.orders[n - 1] is Finish {
        assert(archives + planned(going_on, going_on.start_ms) =~= archives);
    }
}

/// Finished or not, a pass has asked for nothing but the first of what was planned, in order.
pub proof fn a_pass_keeps_to_the_plan(run: PassRun, config: Config, options: ArchiveOptions)
    requires
        run.started_with(config, options),
        run.events.len() > 0,
        run.events[0] is Cameras,
    ensures
        submitted(run.orders).is_prefix_of(run.whole_plan()),
{
    let n = run.events.len() as int;
    lemma_on_plan(run, config, options, n);
    every_state_is_well_formed(run, config, options, n);
    assert(run.orders.take(n) =~= run.orders);
    let archives = submitted(run.orders);
    let state = run.states[n];
    assert(archives.is_prefix_of(archives + planned(state, state.segment_end())));
    assert(archives.is_prefix_of(archives));
}

/// A pass that finishes has asked for the archives of exactly what was planned: each segment of the
/// range once, for each of the selected cameras that is connected, in order.
pub proof fn a_finished_pass_archived_the_plan(
    run: PassRun,
    config: Config,
    options: ArchiveOptions,
)
    requires
        run.started_with(config, options),
        run.orders.len() > 0,
        run.orders.last() is Finish,
    ensures
        run.events[0] is Cameras,
        run.range() is Some,
        submitted(run.orders) == run.whole_plan(),
        run.orders.last()->Finish_camera_count == run.selected().len(),
{
    let n = run.events.len() as int;
    assert(run.step_at(0));
    if run.events[0] is Failed || run.range() is None {
        nothing_follows_the_end(run, config, options, 0);
    }
    lemma_on_plan(run, config, options, n);
    every_state_is_well_formed(run, config, options, n - 1);
    assert(run.step_at(n - 1));
    lemma_advanced(resumed(run.states[n - 1], run.events[n - 1], run.now));
    assert(run.orders.take(n) =~= run.orders);
}

/// A pass that finishes has archived the range that it was asked for, and no other: exactly the
/// segments of the requested range, for the selected cameras that are connected. If it deletes, it
/// has deleted exactly the same.
pub proof fn the_requested_range_is_the_one_archived(
    run: PassRun,
    config: Config,
    options: ArchiveOptions,
)
    requires
        run.started_with(config, options),
        run.orders.len() > 0,
        run.orders.last() is Finish,
        options.range is Some,
    ensures
        submitted(run.orders) == plan(run.selected(), options.range->0, segment_length(config)),
        config.delete_after_archive || options.delete_after_archive ==> deleted(run.orders) == plan(
            run.selected(),
            options.range->0,
            segment_length(config),
        ),
{
    a_finished_pass_archived_the_plan(run, config, options);
    the_report_counts_what_was_done(run, config, options);
}

/// Without a requested range, a pass that finishes has archived the configured lookback from what
/// the clock showed.
pub proof fn without_a_requested_range_the_lookback_is_archived(
    run: PassRun,
    config: Config,
    options: ArchiveOptions,
)
    requires
        run.started_with(config, options),
        run.orders.len() > 0,
        run.orders.last() is Finish,
        options.range is None,
    ensures
        lookback_range(&config, run.now) is Some,
        submitted(run.orders) == plan(
            run.selected(),
            lookback_range(&config, run.now)->0,
            segment_length(config),
        ),
{
    a_finished_pass_archived_the_plan(run, config, options);
}

proof fn lemma_segments_within(
    camera: Camera,
    start_ms: int,
    end_ms: int,
    segment_ms: int,
    i: int,
)
    requires
        0 <= i < segments(camera, start_ms, end_ms, segment_ms).len(),
    ensures
        ({
            let part = segments(camera, start_ms, end_ms, segment_ms)[i];
            start_ms <= part.start_ms < part.end_ms <= end_ms && part.camera == camera
        }),
    decreases end_ms - start_ms,
{
    let until = if start_ms + segment_ms < end_ms {
        start_ms + segment_ms
    } else {
        end_ms
    };
    if i > 0 {
        lemma_segments_within(camera, until, end_ms, segment_ms, i - 1);
    }
}

proof fn lemma_plan_within(cameras: Seq<Camera>, range: ArchiveRange, segment_ms: int, i: int)
    requires
        0 <= i < plan(cameras, range, segment_ms).len(),
    ensures
        ({
            let part = plan(cameras, range, segment_ms)[i];
            &&& range.start_ms <= part.start_ms < part.end_ms <= range.end_ms
            &&& cameras.contains(part.camera)
        }),
    decreases cameras.len(),
{
    let first = camera_plan(cameras[0], range, segment_ms);
    if i < first.len() {
        lemma_segments_within(
            cameras[0],
            range.start_ms as int,
            range.end_ms as int,
            segment_ms,
            i,
        );
    } else {
        let others = cameras.drop_first();
        lemma_plan_within(others, range, segment_ms, i - first.len());
        let part = plan(others, range, segment_ms)[i - first.len()];
        let k = choose|k: int| 0 <= k < others.len() && others[k] == part.camera;
        assert(cameras[k + 1] == part.camera);
    }
}

/// Finished or not, a pass archives and deletes nothing outside its range, and nothing of a camera
/// that is not selected.
pub proof fn nothing_outside_the_range_is_touched(
    run: PassRun,
    config: Config,
    options: ArchiveOptions,
    footage: Footage,
)
    requires
        run.started_with(config, options),
        submitted(run.orders).contains(footage) || deleted(run.orders).contains(footage),
    ensures
        run.range() is Some,
        run.range()->0.start_ms <= footage.start_ms < footage.end_ms <= run.range()->0.end_ms,
        run.selected().contains(footage.camera),
{
    only_archived_footage_is_deleted(run, config, options);
    let archives = submitted(run.orders);
    let deletions = deleted(run.orders);
    if deletions.contains(footage) {
        let k = choose|k: int| 0 <= k < deletions.len() && deletions[k] == footage;
        assert(archives[k] == footage);
    }
    assert(run.events.len() > 0);
    assert(run.step_at(0));
    if !(run.events[0] is Cameras) || run.range() is None {
        nothing_follows_the_end(run, config, options, 0);
        assert(submitted(run.orders.drop_last()).len() == 0);
        assert(archives.len() == 0);
    } else {
        a_pass_keeps_to_the_plan(run, config, options);
        let k = choose|k: int| 0 <= k < archives.len() && archives[k] == footage;
        assert(run.whole_plan()[k] == footage);
        lemma_plan_within(run.selected(), run.range()->0, segment_length(config), k);
    }
}

/// A pass that deletes gives up on an archive whose answer has no id to follow it by. Everything
/// archived before is deleted, and the footage of this archive is not.
pub proof fn an_archive_that_cannot_be_followed_is_not_deleted(
    run: PassRun,
    config: Config,
    options: ArchiveOptions,
    i: int,
)
    requires
        run.started_with(config, options),
        (config.delete_after_archive || options.delete_after_archive),
        0 <= i < run.events.len(),
        run.events[i] is Submitted,
        run.events[i]->Submitted_0.file_id is None,
    ensures
        i == run.orders.len() - 1,
        run.orders[i] == (PassOrder::Fail { error: ArchiveError::MissingFileId }),
        deleted(run.orders) == submitted(run.orders).drop_last(),
{
    every_state_is_well_formed(run, config, options, i);
    assert(run.step_at(i));
    lemma_ends_in_segment(run, config, options, i);
}

/// A pass gives up on an archive that failed or was canceled. Its footage is not deleted.
pub proof fn an_archive_that_fails_is_not_deleted(
    run: PassRun,
    config: Config,
    options: ArchiveOptions,
    i: int,
)
    requires
        run.started_with(config, options),
        0 <= i < run.events.len(),
        run.states[i].stage is Waiting,
        run.events[i] is Pending,
        ({
            let progress = progress_of(
                run.events[i]->Pending_0@,
                run.states[i].stage->Waiting_file_id@,
            );
            progress == ArchiveProgress::Failed || progress == ArchiveProgress::Canceled
        }),
    ensures
        i == run.orders.len() - 1,
        run.orders[i] is Fail,
        config.delete_after_archive || options.delete_after_archive ==> deleted(run.orders)
            == submitted(run.orders).drop_last(),
{
    lemma_ends_in_segment(run, config, options, i);
}

/// A pass gives up on a request that failed. If it was to make an archive or to follow one, the
/// footage is not deleted.
pub proof fn a_failed_request_ends_the_pass(
    run: PassRun,
    config: Config,
    options: ArchiveOptions,
    i: int,
)
    requires
        run.started_with(config, options),
        0 <= i < run.events.len(),
        run.events[i] is Failed,
    ensures
        i == run.orders.len() - 1,
        run.orders[i] is Fail,
        (config.delete_after_archive || options.delete_after_archive) && (
        run.states[i].stage is Submitting
            || run.states[i].stage is Waiting) ==> deleted(run.orders) == submitted(
            run.orders,
        ).drop_last(),
{
    lemma_ends_in_segment(run, config, options, i);
}

proof fn lemma_ends_in_segment(run: PassRun, config: Config, options: ArchiveOptions, i: int)
    requires
        run.started_with(config, options),
        0 <= i < run.events.len(),
        run.states[i].stepped(run.events[i], run.now).1 is Fail,
    ensures
        run.step_at(i),
        i == run.orders.len() - 1,
        run.orders[i] is Fail,
        run.states[i].deletes() == (config.delete_after_archive || options.delete_after_archive),
        run.states[i].config == config,
        run.states[i].well_formed(),
        (config.delete_after_archive || options.delete_after_archive) && (
        run.states[i].stage is Submitting
            || run.states[i].stage is Waiting) ==> deleted(run.orders) == submitted(
            run.orders,
        ).drop_last(),
{
    assert(run.step_at(i));
    nothing_follows_the_end(run, config, options, i);
    every_state_is_well_formed(run, config, options, i);
    lemma_accounted(run, config, options, i);
    assert(run.orders.drop_last() =~= run.orders.take(i));
}

/// The texts by which cameras are asked for.
pub open spec fn asked_for(config: Config, options: ArchiveOptions) -> Seq<String> {
    if options.camera_filters@.len() > 0 {
        options.camera_filters@
    } else {
        config.camera_ids@
    }
}

/// Whether a camera is asked for: nothing is, or one of the texts is its id or its name.
pub open spec fn is_asked_for(camera: Camera, texts: Seq<String>) -> bool {
    texts.len() == 0 || exists|k: int|
        0 <= k < texts.len() && (#[trigger] texts[k]@ == camera.id@ || texts[k]@ == camera.name@)
}

/// Whether a range is the one that a pass is to cover, if the clock shows the second `now`.
pub open spec fn is_range_of(
    range: ArchiveRange,
    config: Config,
    options: ArchiveOptions,
    now: int,
) -> bool {
    match options.range {
        Some(requested) => range == requested,
        None => {
            let end = now - config.minimum_age_seconds;
            &&& range.end_ms == end * 1000
            &&& range.start_ms == (end - config.lookback_seconds) * 1000
        },
    }
}

/// Whether an instant has a date between the years 0 and 9999.
pub open spec fn has_date(timestamp_ms: int) -> bool {
    -62_167_219_200_000 <= timestamp_ms <= 253_402_300_799_999
}

impl PassRun {
    /// Whether every request of the pass succeeded, and none of the lists of pending archives says
    /// of the awaited archive that it failed or was canceled.
    pub open spec fn answered_well(self, config: Config, options: ArchiveOptions) -> bool {
        &&& forall|k: int| 0 <= k < self.events.len() ==> !((#[trigger] self.events[k]) is Failed)
        &&& forall|k: int|
            0 <= k < self.events.len() && (#[trigger] self.events[k]) is Submitted && (
            config.delete_after_archive || options.delete_after_archive)
                ==> self.events[k]->Submitted_0.file_id is Some
        &&& forall|k: int, i: int|
            #![trigger self.events[k], self.events[k]->Pending_0@[i]]
            0 < k < self.events.len() && self.events[k] is Pending && 0 <= i
                < self.events[k]->Pending_0@.len() && self.events[k]->Pending_0@[i].id@
                == self.orders[k - 1]->AwaitPending_file_id@
                && self.events[k]->Pending_0@[i].status is Some ==> {
                let status = self.events[k]->Pending_0@[i].status->0@;
                status != "failed"@ && status != "canceled"@ && status != "canceledPending"@
            }
    }

    /// Whether nothing stands in the way of the pass: every request succeeds, one of the cameras is
    /// asked for, the range has dates, and no number leaves its type.
    pub open spec fn unhindered(
        self,
        config: Config,
        options: ArchiveOptions,
        range: ArchiveRange,
    ) -> bool {
        &&& self.answered_well(config, options)
        &&& is_range_of(range, config, options, self.now)
        &&& has_date(range.start_ms as int) && has_date(range.end_ms as int)
        &&& config.segment_seconds * 1000 <= i64::MAX
        &&& range.end_ms + config.segment_seconds * 1000 <= i64::MAX
        &&& submitted(self.orders).len() <= usize::MAX
        &&& asked_for(config, options).len() == 0 || exists|c: int|
            0 <= c < self.events[0]->Cameras_0@.len() && #[trigger] is_asked_for(
                self.events[0]->Cameras_0@[c],
                asked_for(config, options),
            )
    }
}

proof fn lemma_submitted_grows(orders: Seq<PassOrder>, n: int)
    requires
        0 <= n <= orders.len(),
    ensures
        submitted(orders.take(n)).len() <= submitted(orders).len(),
    decreases orders.len() - n,
{
    if n < orders.len() {
        lemma_submitted_grows(orders, n + 1);
        assert(orders.take(n + 1).drop_last() =~= orders.take(n));
    } else {
        assert(orders.take(n) =~= orders);
    }
}

proof fn lemma_entry_of(pending: Seq<PendingArchive>, file_id: Seq<char>) -> (k: int)
    requires
        progress_of(pending, file_id) != ArchiveProgress::Left,
    ensures
        0 <= k < pending.len(),
        pending[k].id@ == file_id,
        forall|i: int| 0 <= i < k ==> (#[trigger] pending[i]).id@ != file_id,
    decreases pending.len(),
{
    if pending[0].id@ == file_id {
        0
    } else {
        let rest = pending.drop_first();
        let k = lemma_entry_of(rest, file_id);
        assert forall|i: int| 0 <= i < k + 1 implies (#[trigger] pending[i]).id@ != file_id by {
            if i > 0 {
                assert(rest[i - 1].id@ != file_id);
            }
        }
        k + 1
    }
}

/// Going on does not fail inside a range of dates.
proof fn lemma_goes_on(state: PassState)
    requires
        state.accepted(),
        has_date(state.range.start_ms as int),
        has_date(state.range.end_ms as int),
        state.range.start_ms <= state.range.end_ms,
        state.range.start_ms <= state.start_ms <= state.range.end_ms,
        state.config.segment_seconds * 1000 <= i64::MAX,
        state.range.end_ms + state.config.segment_seconds * 1000 <= i64::MAX,
    ensures
        !(state.advanced().1 is Fail),
        state.advanced().0.in_segment() ==> {
            let next = state.advanced().0;
            state.range.start_ms <= next.start_ms < next.segment_end() <= state.range.end_ms
        },
    decreases state.cameras.len() - state.camera_index,
{
    if state.camera_index < state.cameras.len() {
        let next = PassState {
            camera_index: state.camera_index + 1,
            start_ms: state.range.start_ms as int,
            ..state
        };
        lemma_goes_on(next);
    }
}

/// A waiting pass ordered the wait for its archive.
proof fn lemma_wait_ordered(run: PassRun, config: Config, options: ArchiveOptions, n: int)
    requires
        run.started_with(config, options),
        0 <= n <= run.events.len(),
        run.states[n].stage is Waiting,
    ensures
        n > 0,
        run.orders[n - 1] == (PassOrder::AwaitPending {
            file_id: run.states[n].stage->Waiting_file_id,
            seconds: config.archive_status_poll_seconds,
        }),
{
    if n > 0 {
        every_state_is_well_formed(run, config, options, n - 1);
        assert(run.step_at(n - 1));
        lemma_advanced(resumed(run.states[n - 1], run.events[n - 1], run.now));
    }
}

proof fn lemma_unhindered(
    run: PassRun,
    config: Config,
    options: ArchiveOptions,
    range: ArchiveRange,
    n: int,
)
    requires
        run.started_with(config, options),
        run.unhindered(config, options, range),
        0 < n <= run.events.len(),
    ensures
        !(run.orders[n - 1] is Fail),
        run.states[n].range == range,
        run.states[n].in_segment() || run.states[n].stage is Finished,
        run.states[n].in_segment() ==> range.start_ms <= run.states[n].start_ms
            < run.states[n].segment_end() <= range.end_ms,
    decreases n,
{
    let state = run.states[n - 1];
    let event = run.events[n - 1];
    every_state_is_well_formed(run, config, options, n - 1);
    assert(run.step_at(n - 1));
    assert(!(run.events[n - 1] is Failed));
    let going_on = resumed(state, event, run.now);
    lemma_advanced(going_on);
    if options.range is None {
        lookback_stops_short_of_recent_footage(config, run.now);
    }
    if n == 1 {
        assert(range_at(&config, &options, run.now) == Some(range));
        assert(state.requested() == asked_for(config, options));
        if asked_for(config, options).len() > 0 {
            let cameras = event->Cameras_0@;
            let c = choose|c: int|
                0 <= c < cameras.len() && #[trigger] is_asked_for(
                    cameras[c],
                    asked_for(config, options),
                );
            selection_is_by_id_or_name(cameras, state.requested(), cameras[c]);
        }
        lemma_goes_on(going_on);
    } else {
        lemma_unhindered(run, config, options, range, n - 1);
        lemma_accounted(run, config, options, n - 1);
        lemma_submitted_grows(run.orders, n - 1);
        lemma_goes_on(going_on);
        if event is Pending {
            lemma_wait_ordered(run, config, options, n - 1);
            let pending = event->Pending_0@;
            let file_id = state.stage->Waiting_file_id@;
            if progress_of(pending, file_id) != ArchiveProgress::Left {
                let k = lemma_entry_of(pending, file_id);
                the_first_entry_says_how_an_archive_stands(pending, file_id, k);
                assert(run.events[n - 1]->Pending_0@[k].id@ == file_id);
            }
        }
    }
}

/// A pass that nothing stands in the way of never gives up: it goes on until it finishes.
pub proof fn an_unhindered_pass_never_gives_up(
    run: PassRun,
    config: Config,
    options: ArchiveOptions,
    range: ArchiveRange,
    k: int,
)
    requires
        run.started_with(config, options),
        run.unhindered(config, options, range),
        0 <= k < run.orders.len(),
    ensures
        run.orders[k] is Submit || run.orders[k] is AwaitPending || run.orders[k] is Delete
            || run.orders[k] is Finish,
{
    lemma_unhindered(run, config, options, range, k + 1);
    every_state_is_well_formed(run, config, options, k);
    assert(run.step_at(k));
    lemma_advanced(resumed(run.states[k], run.events[k], run.now));
}

/// Whatever a pass orders, it can be told what came of it: after each order but the last one, the
/// answer to the order is what the pass expects, or else that the order failed.
pub proof fn a_pass_can_be_told_what_came_of_its_order(
    run: PassRun,
    config: Config,
    options: ArchiveOptions,
    k: int,
    event: PassEvent,
)
    requires
        run.started_with(config, options),
        0 <= k < run.orders.len(),
    ensures
        run.states[0].expects(event) <==> event is Cameras || event is Failed,
        run.orders[k] is Submit ==> (run.states[k + 1].expects(event) <==> event is Submitted
            || event is Failed),
        run.orders[k] is AwaitPending ==> (run.states[k + 1].expects(event) <==> event is Pending
            || event is Failed),
        run.orders[k] is Delete ==> (run.states[k + 1].expects(event) <==> event is Deleted
            || event is Failed),
        run.orders[k] is Finish || run.orders[k] is Fail ==> !run.states[k + 1].expects(event),
{
    every_state_is_well_formed(run, config, options, k);
    assert(run.step_at(k));
    lemma_advanced(resumed(run.states[k], run.events[k], run.now));
}

/// A pass waits for the archive that it asked for last, for the configured time, and just as long as
/// the list of pending archives still has it: once no entry has its id, it goes on.
pub proof fn a_pass_waits_while_its_archive_is_pending(
    run: PassRun,
    config: Config,
    options: ArchiveOptions,
    k: int,
)
    requires
        run.started_with(config, options),
        0 <= k < run.orders.len(),
    ensures
        run.orders[k] is AwaitPending ==> run.orders[k]->AwaitPending_seconds
            == config.archive_status_poll_seconds,
        run.orders[k] is AwaitPending && run.events[k] is Submitted ==> run.events[k]->Submitted_0.file_id
            == Some(run.orders[k]->AwaitPending_file_id),
        run.events[k] is Submitted && config.wait_for_archive_completion
            && run.events[k]->Submitted_0.file_id is Some ==> run.orders[k] is AwaitPending,
        run.orders[k] is AwaitPending ==> config.wait_for_archive_completion,
        run.events[k] is Pending ==> {
            &&& k > 0 && run.orders[k - 1] is AwaitPending
            &&& run.orders[k] is AwaitPending ==> run.orders[k] == run.orders[k - 1] && exists|i: int|
                0 <= i < run.events[k]->Pending_0@.len() && (
                #[trigger] run.events[k]->Pending_0@[i]).id@
                    == run.orders[k - 1]->AwaitPending_file_id@
        },
{
    every_state_is_well_formed(run, config, options, k);
    assert(run.step_at(k));
    lemma_advanced(resumed(run.states[k], run.events[k], run.now));
    if run.events[k] is Pending {
        lemma_wait_ordered(run, config, options, k);
        an_archive_left_exactly_if_no_entry_has_its_id(
            run.events[k]->Pending_0@,
            run.states[k].stage->Waiting_file_id@,
        );
    }
}

/// The range of a pass is the one that its inputs give.
proof fn lemma_range(run: PassRun, config: Config, options: ArchiveOptions, range: ArchiveRange)
    requires
        run.started_with(config, options),
        run.range() is Some,
        is_range_of(range, config, options, run.now),
    ensures
        run.range() == Some(range),
{
}

proof fn lemma_segments_reach(
    camera: Camera,
    start_ms: int,
    end_ms: int,
    segment_ms: int,
    t: int,
) -> (i: int)
    requires
        segment_ms > 0,
        start_ms <= t,
        t + 1000 < end_ms,
    ensures
        0 <= i < segments(camera, start_ms, end_ms, segment_ms).len(),
        ({
            let part = segments(camera, start_ms, end_ms, segment_ms)[i];
            part.camera == camera && part.start_ms <= t < part.end_ms
        }),
    decreases end_ms - start_ms,
{
    let until = if start_ms + segment_ms < end_ms {
        start_ms + segment_ms
    } else {
        end_ms
    };
    if t < until {
        0
    } else {
        lemma_segments_reach(camera, until, end_ms, segment_ms, t) + 1
    }
}

proof fn lemma_plan_reaches(
    cameras: Seq<Camera>,
    range: ArchiveRange,
    segment_ms: int,
    c: int,
    t: int,
) -> (i: int)
    requires
        segment_ms > 0,
        0 <= c < cameras.len(),
        cameras[c].is_connected != Some(false),
        range.start_ms <= t,
        t + 1000 < range.end_ms,
    ensures
        0 <= i < plan(cameras, range, segment_ms).len(),
        ({
            let part = plan(cameras, range, segment_ms)[i];
            part.camera == cameras[c] && part.start_ms <= t < part.end_ms
        }),
    decreases cameras.len(),
{
    let first = camera_plan(cameras[0], range, segment_ms);
    if c == 0 {
        lemma_segments_reach(cameras[0], range.start_ms as int, range.end_ms as int, segment_ms, t)
    } else {
        first.len() + lemma_plan_reaches(cameras.drop_first(), range, segment_ms, c - 1, t)
    }
}

/// A pass that finishes has archived every instant of its range, up to the last second, of every
/// camera of the console that is asked for and connected. If it deletes, it has deleted the same.
pub proof fn a_finished_pass_archived_every_instant(
    run: PassRun,
    config: Config,
    options: ArchiveOptions,
    range: ArchiveRange,
    c: int,
    t: int,
) -> (i: int)
    requires
        run.started_with(config, options),
        run.orders.len() > 0,
        run.orders.last() is Finish,
        is_range_of(range, config, options, run.now),
        0 <= c < run.events[0]->Cameras_0@.len(),
        is_asked_for(run.events[0]->Cameras_0@[c], asked_for(config, options)),
        run.events[0]->Cameras_0@[c].is_connected != Some(false),
        range.start_ms <= t,
        t + 1000 < range.end_ms,
    ensures
        0 <= i < submitted(run.orders).len(),
        submitted(run.orders)[i].camera == run.events[0]->Cameras_0@[c],
        submitted(run.orders)[i].start_ms <= t < submitted(run.orders)[i].end_ms,
        config.delete_after_archive || options.delete_after_archive ==> i < deleted(
            run.orders,
        ).len() && deleted(run.orders)[i] == submitted(run.orders)[i],
{
    a_finished_pass_archived_the_plan(run, config, options);
    the_report_counts_what_was_done(run, config, options);
    lemma_range(run, config, options, range);
    let cameras = run.events[0]->Cameras_0@;
    let requested = run.states[0].requested();
    assert(requested == asked_for(config, options));
    assert(cameras.contains(cameras[c]));
    selection_is_by_id_or_name(cameras, requested, cameras[c]);
    let s = choose|s: int| 0 <= s < run.selected().len() && run.selected()[s] == cameras[c];
    lemma_plan_reaches(run.selected(), range, segment_length(config), s, t)
}

proof fn lemma_segment_steps(
    camera: Camera,
    start_ms: int,
    end_ms: int,
    segment_ms: int,
    i: int,
)
    requires
        0 <= i < segments(camera, start_ms, end_ms, segment_ms).len(),
    ensures
        ({
            let parts = segments(camera, start_ms, end_ms, segment_ms);
            &&& parts[i].camera == camera
            &&& parts[0].start_ms == start_ms
            &&& i > 0 ==> parts[i].start_ms == parts[i - 1].end_ms
            &&& parts[i].end_ms == (if parts[i].start_ms + segment_ms < end_ms {
                parts[i].start_ms + segment_ms
            } else {
                end_ms
            })
        }),
    decreases end_ms - start_ms,
{
    let until = if start_ms + segment_ms < end_ms {
        start_ms + segment_ms
    } else {
        end_ms
    };
    if i > 0 {
        lemma_segment_steps(camera, until, end_ms, segment_ms, i - 1);
    }
}

proof fn lemma_plan_steps(cameras: Seq<Camera>, range: ArchiveRange, segment_ms: int, i: int)
    requires
        0 <= i < plan(cameras, range, segment_ms).len(),
    ensures
        ({
            let parts = plan(cameras, range, segment_ms);
            &&& parts[i].camera.is_connected != Some(false)
            &&& parts[0].start_ms == range.start_ms
            &&& i > 0 && parts[i].start_ms != range.start_ms ==> parts[i].start_ms == parts[i
                - 1].end_ms && parts[i].camera == parts[i - 1].camera
            &&& parts[i].end_ms == (if parts[i].start_ms + segment_ms < range.end_ms {
                parts[i].start_ms + segment_ms
            } else {
                range.end_ms as int
            })
        }),
    decreases cameras.len(),
{
    let first = camera_plan(cameras[0], range, segment_ms);
    let others = plan(cameras.drop_first(), range, segment_ms);
    let parts = plan(cameras, range, segment_ms);
    if first.len() > 0 {
        lemma_segment_steps(
            cameras[0],
            range.start_ms as int,
            range.end_ms as int,
            segment_ms,
            0,
        );
        assert(parts[0] == first[0]);
    } else {
        assert(parts =~= others);
    }
    if i < first.len() {
        lemma_segment_steps(
            cameras[0],
            range.start_ms as int,
            range.end_ms as int,
            segment_ms,
            i,
        );
        if i > 0 {
            lemma_segment_steps(
                cameras[0],
                range.start_ms as int,
                range.end_ms as int,
                segment_ms,
                i - 1,
            );
            assert(parts[i - 1] == first[i - 1]);
        }
    } else {
        lemma_plan_steps(cameras.drop_first(), range, segment_ms, i - first.len());
        if i > first.len() {
            assert(parts[i - 1] == others[i - 1 - first.len()]);
        }
    }
}

/// Finished or not, whatever a pass archives or deletes is of a camera that the console listed, that
/// is asked for and that is connected. It begins at the start of the range, or where the footage
/// archived before it ends, and is as long as the configuration says or ends with the range.
pub proof fn only_what_was_asked_for_is_archived(
    run: PassRun,
    config: Config,
    options: ArchiveOptions,
    range: ArchiveRange,
    i: int,
)
    requires
        run.started_with(config, options),
        is_range_of(range, config, options, run.now),
        0 <= i < submitted(run.orders).len(),
    ensures
        ({
            let archives = submitted(run.orders);
            let part = archives[i];
            &&& run.events[0]->Cameras_0@.contains(part.camera)
            &&& is_asked_for(part.camera, asked_for(config, options))
            &&& part.camera.is_connected != Some(false)
            &&& range.start_ms <= part.start_ms < part.end_ms <= range.end_ms
            &&& part.start_ms == range.start_ms || i > 0 && part.start_ms == archives[i - 1].end_ms
                && part.camera == archives[i - 1].camera
            &&& part.end_ms == part.start_ms + config.segment_seconds * 1000 || part.end_ms
                == range.end_ms
            &&& part.end_ms - part.start_ms <= config.segment_seconds * 1000
            &&& i < deleted(run.orders).len() ==> deleted(run.orders)[i] == part
        }),
{
    let archives = submitted(run.orders);
    let part = archives[i];
    assert(archives.contains(part));
    nothing_outside_the_range_is_touched(run, config, options, part);
    only_archived_footage_is_deleted(run, config, options);
    lemma_range(run, config, options, range);
    assert(run.events.len() > 0);
    assert(run.step_at(0));
    if run.events[0] is Failed {
        nothing_follows_the_end(run, config, options, 0);
        assert(submitted(run.orders.drop_last()).len() == 0);
        assert(archives.len() == 0);
    }
    a_pass_keeps_to_the_plan(run, config, options);
    let parts = run.whole_plan();
    assert(parts[i] == archives[i]);
    assert(parts[0] == archives[0]);
    if i > 0 {
        assert(parts[i - 1] == archives[i - 1]);
    }
    lemma_plan_steps(run.selected(), range, segment_length(config), i);
    let cameras = run.events[0]->Cameras_0@;
    let requested = run.states[0].requested();
    lemma_selected_is_listed(cameras, requested, part.camera);
    selection_is_by_id_or_name(cameras, requested, part.camera);
    if deleted(run.orders).len() > i {
        assert(deleted(run.orders)[i] == archives[i]);
    }
}

proof fn lemma_selected_is_listed(cameras: Seq<Camera>, requested: Seq<String>, camera: Camera)
    requires
        camera_selection(cameras, requested).contains(camera),
    ensures
        cameras.contains(camera),
{
    if requested.len() > 0 {
        cameras.lemma_filter_contains_rev(
            |camera: Camera| requested_camera(camera, requested),
            camera,
        );
    }
}

proof fn lemma_segment_count(
    camera: Camera,
    start_ms: int,
    end_ms: int,
    segment_ms: int,
)
    requires
        segment_ms > 0,
    ensures
        ({
            let n = segments(camera, start_ms, end_ms, segment_ms).len();
            &&& n == 0 <==> end_ms - start_ms <= 1000
            &&& n > 0 ==> (n - 1) * segment_ms + 1000 < end_ms - start_ms
            &&& end_ms - start_ms <= n * segment_ms + 1000
        }),
    decreases end_ms - start_ms,
{
    if start_ms + 1000 < end_ms {
        let until = if start_ms + segment_ms < end_ms {
            start_ms + segment_ms
        } else {
            end_ms
        };
        lemma_segment_count(camera, until, end_ms, segment_ms);
        let n = segments(camera, until, end_ms, segment_ms).len() as int;
        assert((n + 1) * segment_ms == n * segment_ms + segment_ms) by (nonlinear_arith);
        assert((n - 1) * segment_ms == n * segment_ms - segment_ms) by (nonlinear_arith);
        assert(n == 0 ==> n * segment_ms == 0) by (nonlinear_arith);
    }
}

/// The cameras of a list that are asked for and connected.
pub open spec fn cameras_to_archive(cameras: Seq<Camera>, texts: Seq<String>) -> Seq<Camera> {
    cameras.filter(
        |camera: Camera| camera.is_connected != Some(false) && is_asked_for(camera, texts),
    )
}

/// The part of a plan for the selected cameras of a list is as long as the number of those to
/// archive says.
proof fn lemma_plan_count(
    cameras: Seq<Camera>,
    texts: Seq<String>,
    range: ArchiveRange,
    segment_ms: int,
    n: int,
)
    requires
        segment_ms > 0,
        forall|camera: Camera| (#[trigger] segments(
            camera,
            range.start_ms as int,
            range.end_ms as int,
            segment_ms,
        )).len() == n,
    ensures
        plan(camera_selection(cameras, texts), range, segment_ms).len() == n * cameras_to_archive(
            cameras,
            texts,
        ).len(),
    decreases cameras.len(),
{
    let wanted = |camera: Camera| requested_camera(camera, texts);
    let chosen = |camera: Camera|
        camera.is_connected != Some(false) && is_asked_for(camera, texts);
    reveal(Seq::filter);
    if cameras.len() == 0 {
        assert(n * 0 == 0) by (nonlinear_arith);
    } else {
        let others = cameras.drop_first();
        let first = cameras[0];
        lemma_plan_count(others, texts, range, segment_ms, n);
        assert(cameras =~= seq![first] + others);
        others.lemma_filter_prepend(first, chosen);
        others.lemma_filter_prepend(first, wanted);
        let rest = camera_selection(others, texts);
        let all = camera_selection(cameras, texts);
        let k = cameras_to_archive(others, texts).len() as int;
        assert(n * (k + 1) == n * k + n) by (nonlinear_arith);
        if texts.len() == 0 || requested_camera(first, texts) {
            assert(is_asked_for(first, texts));
            assert(all =~= seq![first] + rest);
            assert(all.drop_first() =~= rest);
        } else {
            assert(!is_asked_for(first, texts));
            assert(all =~= rest);
        }
    }
}

/// A pass that finishes has made as many archives as there are segments in the range for each camera
/// that is asked for and connected: the least number of segments that reach the end of the range, or
/// the last second before it. Its report says so, and how many cameras are asked for.
pub proof fn a_finished_pass_counts_its_archives(
    run: PassRun,
    config: Config,
    options: ArchiveOptions,
    range: ArchiveRange,
) -> (n: int)
    requires
        run.started_with(config, options),
        run.orders.len() > 0,
        run.orders.last() is Finish,
        is_range_of(range, config, options, run.now),
    ensures
        ({
            let length = range.end_ms - range.start_ms;
            let segment = config.segment_seconds * 1000;
            let cameras = run.events[0]->Cameras_0@;
            let texts = asked_for(config, options);
            let report = run.orders.last();
            &&& n >= 0
            &&& n == 0 <==> length <= 1000
            &&& n > 0 ==> (n - 1) * segment + 1000 < length
            &&& length <= n * segment + 1000
            &&& report->Finish_archive_count == n * cameras_to_archive(cameras, texts).len()
            &&& report->Finish_delete_count == (if config.delete_after_archive
                || options.delete_after_archive {
                report->Finish_archive_count
            } else {
                0
            })
            &&& report->Finish_camera_count == cameras.filter(
                |camera: Camera| is_asked_for(camera, texts),
            ).len()
        }),
{
    a_finished_pass_archived_the_plan(run, config, options);
    the_report_counts_what_was_done(run, config, options);
    only_archived_footage_is_deleted(run, config, options);
    lemma_range(run, config, options, range);
    let cameras = run.events[0]->Cameras_0@;
    let texts = asked_for(config, options);
    let segment_ms = segment_length(config);
    assert(run.states[0].requested() == texts);
    let any = arbitrary::<Camera>();
    let n = segments(any, range.start_ms as int, range.end_ms as int, segment_ms).len() as int;
    lemma_segment_count(any, range.start_ms as int, range.end_ms as int, segment_ms);
    assert forall|camera: Camera| (#[trigger] segments(
        camera,
        range.start_ms as int,
        range.end_ms as int,
        segment_ms,
    )).len() == n by {
        lemma_segment_number(
            camera,
            any,
            range.start_ms as int,
            range.end_ms as int,
            segment_ms,
        );
    }
    lemma_plan_count(cameras, texts, range, segment_ms, n);
    lemma_asked_for_selection(cameras, texts);
    n
}

proof fn lemma_segment_number(
    camera: Camera,
    other: Camera,
    start_ms: int,
    end_ms: int,
    segment_ms: int,
)
    ensures
        segments(camera, start_ms, end_ms, segment_ms).len() == segments(
            other,
            start_ms,
            end_ms,
            segment_ms,
        ).len(),
    decreases end_ms - start_ms,
{
    if segment_ms > 0 && start_ms + 1000 < end_ms {
        let until = if start_ms + segment_ms < end_ms {
            start_ms + segment_ms
        } else {
            end_ms
        };
        lemma_segment_number(camera, other, until, end_ms, segment_ms);
    }
}

proof fn lemma_asked_for_selection(cameras: Seq<Camera>, texts: Seq<String>)
    ensures
        camera_selection(cameras, texts) == cameras.filter(
            |camera: Camera| is_asked_for(camera, texts),
        ),
    decreases cameras.len(),
{
    let asked = |camera: Camera| is_asked_for(camera, texts);
    let wanted = |camera: Camera| requested_camera(camera, texts);
    reveal(Seq::filter);
    if cameras.len() > 0 {
        lemma_asked_for_selection(cameras.drop_last(), texts);
        let last = cameras.last();
        assert(texts.len() > 0 ==> is_asked_for(last, texts) == requested_camera(last, texts));
        assert(cameras.filter(asked) =~= camera_selection(cameras, texts));
    }
}

/// A deleting pass ordered the deletion of its segment, and no other pass did.
proof fn lemma_delete_ordered(run: PassRun, config: Config, options: ArchiveOptions, n: int)
    requires
        run.started_with(config, options),
        0 <= n <= run.events.len(),
    ensures
        run.states[n].stage is Deleting <==> n > 0 && run.orders[n - 1] is Delete,
        run.states[n].stage is Deleting ==> run.orders[n - 1]->Delete_camera
            == run.states[n].cameras[run.states[n].camera_index],
        run.states[n].stage is Selecting <==> n == 0,
{
    if n > 0 {
        every_state_is_well_formed(run, config, options, n - 1);
        assert(run.step_at(n - 1));
        lemma_advanced(resumed(run.states[n - 1], run.events[n - 1], run.now));
    }
}

/// A pass that gives up tells why: a request failed, and then with which message, or of which camera
/// footage could not be deleted; the awaited archive failed or was canceled; none of the cameras is
/// asked for; or there is no range.
pub proof fn a_pass_tells_why_it_gave_up(
    run: PassRun,
    config: Config,
    options: ArchiveOptions,
    k: int,
    i: int,
)
    requires
        run.started_with(config, options),
        0 <= k < run.orders.len(),
    ensures
        run.events[k] is Failed && !(k > 0 && run.orders[k - 1] is Delete) ==> run.orders[k] == (
        PassOrder::Fail {
            error: ArchiveError::RequestFailed { message: run.events[k]->message },
        }),
        run.events[k] is Failed && k > 0 && run.orders[k - 1] is Delete ==> run.orders[k] == (
        PassOrder::Fail {
            error: ArchiveError::DeleteFailed {
                camera_name: run.orders[k - 1]->Delete_camera.name,
                reason: run.events[k]->message,
            },
        }),
        run.events[k] is Pending ==> {
            let pending = run.events[k]->Pending_0@;
            let file_id = run.orders[k - 1]->AwaitPending_file_id;
            0 <= i < pending.len() && pending[i].id@ == file_id@ && (forall|m: int|
                0 <= m < i ==> (#[trigger] pending[m]).id@ != file_id@)
                && pending[i].status is Some ==> {
                let status = pending[i].status->0@;
                &&& status == "failed"@ ==> run.orders[k] == (PassOrder::Fail {
                    error: ArchiveError::ArchiveFailed { file_id },
                })
                &&& status == "canceled"@ || status == "canceledPending"@ ==> run.orders[k] == (
                PassOrder::Fail { error: ArchiveError::ArchiveCanceled { file_id } })
            }
        },
        run.events[k] is Cameras && asked_for(config, options).len() > 0 && (forall|c: int|
            0 <= c < run.events[k]->Cameras_0@.len() ==> !is_asked_for(
                #[trigger] run.events[k]->Cameras_0@[c],
                asked_for(config, options),
            )) ==> run.orders[k] == (PassOrder::Fail { error: ArchiveError::NoCameraMatched }),
        run.events[k] is Cameras && options.range is None && !(FIRST_SECOND <= run.now
            - config.minimum_age_seconds <= LAST_SECOND && config.lookback_seconds * 1000
            <= i64::MAX) ==> run.orders[k] == (PassOrder::Fail {
            error: ArchiveError::NoCameraMatched,
        }) || run.orders[k] == (PassOrder::Fail { error: ArchiveError::LookbackOutOfRange }),
        run.orders[k] == (PassOrder::Fail { error: ArchiveError::NoCameraMatched }) ==> (forall|
            c: int,
        |
            0 <= c < run.events[k]->Cameras_0@.len() ==> !is_asked_for(
                #[trigger] run.events[k]->Cameras_0@[c],
                asked_for(config, options),
            )),
{
    every_state_is_well_formed(run, config, options, k);
    assert(run.step_at(k));
    lemma_advanced(resumed(run.states[k], run.events[k], run.now));
    lemma_delete_ordered(run, config, options, k);
    if run.events[k] is Pending {
        lemma_wait_ordered(run, config, options, k);
        let pending = run.events[k]->Pending_0@;
        let file_id = run.orders[k - 1]->AwaitPending_file_id@;
        if 0 <= i < pending.len() && pending[i].id@ == file_id && (forall|m: int|
            0 <= m < i ==> (#[trigger] pending[m]).id@ != file_id) {
            the_first_entry_says_how_an_archive_stands(pending, file_id, i);
        }
    }
    if run.events[k] is Cameras {
        let cameras = run.events[k]->Cameras_0@;
        let texts = asked_for(config, options);
        assert(run.states[k].requested() == texts);
        lemma_asked_for_selection(cameras, texts);
        let asked = |camera: Camera| is_asked_for(camera, texts);
        let selected = cameras.filter(asked);
        if selected.len() > 0 {
            cameras.lemma_filter_pred(asked, 0);
            assert(selected.contains(selected[0]));
            cameras.lemma_filter_contains_rev(asked, selected[0]);
        }
        if exists|c: int| 0 <= c < cameras.len() && is_asked_for(#[trigger] cameras[c], texts) {
            let c = choose|c: int| 0 <= c < cameras.len() && is_asked_for(#[trigger] cameras[c], texts);
            assert(asked(cameras[c]));
            cameras.lemma_filter_contains(asked, c);
        }
    }
    lemma_no_match_is_told_of_cameras(run, config, options, k);
}

/// Only the list of cameras can show that none of them is asked for.
proof fn lemma_no_match_is_told_of_cameras(
    run: PassRun,
    config: Config,
    options: ArchiveOptions,
    k: int,
)
    requires
        run.started_with(config, options),
        0 <= k < run.orders.len(),
    ensures
        run.orders[k] == (PassOrder::Fail { error: ArchiveError::NoCameraMatched })
            ==> run.events[k] is Cameras,
        run.orders[k] == (PassOrder::Fail { error: ArchiveError::NoCameraMatched })
            ==> camera_selection(
            run.events[k]->Cameras_0@,
            run.states[k].requested(),
        ).len() == 0,
{
    every_state_is_well_formed(run, config, options, k);
    assert(run.step_at(k));
    lemma_advanced_error(resumed(run.states[k], run.events[k], run.now));
}

proof fn lemma_advanced_error(state: PassState)
    ensures
        state.advanced().1 is Fail ==> {
            let error = state.advanced().1->Fail_error;
            error is Overflow || error is ConvertTimestamp || error is FormatTimestamp
        },
    decreases state.cameras.len() - state.camera_index,
{
    if state.camera_index < state.cameras.len() {
        lemma_advanced_error(
            PassState {
                camera_index: state.camera_index + 1,
                start_ms: state.range.start_ms as int,
                ..state
            },
        );
    }
}

/// An archive is asked for under the file name of its camera and its instants.
pub proof fn an_archive_has_the_file_name_of_its_footage(
    run: PassRun,
    config: Config,
    options: ArchiveOptions,
    k: int,
    camera: &Camera,
    name: Result<String, ArchiveError>,
)
    requires
        run.started_with(config, options),
        0 <= k < run.orders.len(),
        run.orders[k] is Submit,
        camera == run.orders[k]->Submit_camera,
        call_ensures(
            archive_filename,
            (
                camera,
                run.orders[k]->Submit_start_ms as i64,
                run.orders[k]->Submit_end_ms as i64,
            ),
            name,
        ),
    ensures
        name is Ok,
        run.orders[k]->Submit_filename == name->Ok_0@,
{
    every_state_is_well_formed(run, config, options, k);
    assert(run.step_at(k));
    lemma_advanced_name(resumed(run.states[k], run.events[k], run.now));
}

proof fn lemma_advanced_name(state: PassState)
    ensures
        state.advanced().1 is Submit ==> {
            let order = state.advanced().1;
            filename_result(
                order->Submit_camera.name@,
                order->Submit_start_ms as i64,
                order->Submit_end_ms as i64,
            ) == Ok::<Seq<char>, ArchiveError>(order->Submit_filename)
        },
    decreases state.cameras.len() - state.camera_index,
{
    if state.camera_index < state.cameras.len() {
        lemma_advanced_name(
            PassState {
                camera_index: state.camera_index + 1,
                start_ms: state.range.start_ms as int,
                ..state
            },
        );
    }
}

/// The clock matters only where a range has to be taken from it: on the list of cameras, and without
/// a requested range.
pub proof fn the_clock_matters_only_for_a_lookback(
    state: PassState,
    event: PassEvent,
    now: int,
    other: int,
)
    requires
        !(event is Cameras) || state.options.range is Some,
    ensures
        state.stepped(event, now) == state.stepped(event, other),
{
}

} // verus!
