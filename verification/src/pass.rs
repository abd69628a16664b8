//! An archive pass, one step at a time. The pass says what to do next; whoever runs it does that
//! and hands back what came of it.

use crate::archiver::{
    archive_range, archive_range_at, archive_request, camera_filters, camera_selection,
    config_error, deletes, filename_result, lookback_range, next_segment, range_at, request_for,
    segment_after, selected_cameras, should_delete_after_archive, validate_config, ArchiveOptions,
    ArchiveRange, ArchiveReport, NextSegment,
};
use crate::config::Config;
use crate::error::ArchiveError;
use crate::protect::{ArchiveTask, ArchiveVideoRequest, Camera, PendingArchive};
use crate::text::same_text;
use crate::timestamp::{FIRST_SECOND, LAST_SECOND};
use vstd::prelude::*;
use vstd::string::*;

verus! {

/// How an archive stands.
#[derive(Debug, Clone, Copy, PartialEq, Eq, Structural)]
pub enum ArchiveProgress {
    /// It is not among the pending archives any more.
    Left,
    /// It is pending.
    Pending,
    /// It failed.
    Failed,
    /// It was canceled.
    Canceled,
}

/// The first pending archive with an id.
pub open spec fn pending_entry(pending: Seq<PendingArchive>, file_id: Seq<char>) -> Option<
    PendingArchive,
>
    decreases pending.len(),
{
    if pending.len() == 0 {
        None
    } else if pending[0].id@ == file_id {
        Some(pending[0])
    } else {
        pending_entry(pending.drop_first(), file_id)
    }
}

/// How a status is taken.
pub open spec fn status_progress(status: Option<String>) -> ArchiveProgress {
    match status {
        Some(text) => if text@ == "failed"@ {
            ArchiveProgress::Failed
        } else if text@ == "canceled"@ || text@ == "canceledPending"@ {
            ArchiveProgress::Canceled
        } else {
            ArchiveProgress::Pending
        },
        None => ArchiveProgress::Pending,
    }
}

/// How the archive with an id stands, given the pending archives.
pub open spec fn progress_of(pending: Seq<PendingArchive>, file_id: Seq<char>) -> ArchiveProgress {
    match pending_entry(pending, file_id) {
        Some(entry) => status_progress(entry.status),
        None => ArchiveProgress::Left,
    }
}

fn read_status(status: &Option<String>) -> (result: ArchiveProgress)
    ensures
        result == status_progress(*status),
{
    match status {
        Some(text) => if same_text(text.as_str(), "failed") {
            ArchiveProgress::Failed
        } else if same_text(text.as_str(), "canceled") || same_text(
            text.as_str(),
            "canceledPending",
        ) {
            ArchiveProgress::Canceled
        } else {
            ArchiveProgress::Pending
        },
        None => ArchiveProgress::Pending,
    }
}

/// Tells how the archive with an id stands, given the pending archives.
pub fn archive_progress(pending: &Vec<PendingArchive>, file_id: &str) -> (result: ArchiveProgress)
    ensures
        result == progress_of(pending@, file_id@),
{
    assert(pending@.skip(0) =~= pending@);
    for i in 0..pending.len()
        invariant
            pending_entry(pending@.skip(i as int), file_id@) == pending_entry(pending@, file_id@),
    {
        assert(pending@.skip(i as int)[0] == pending@[i as int]);
        assert(pending@.skip(i as int).drop_first() =~= pending@.skip(i + 1));
        if same_text(pending[i].id.as_str(), file_id) {
            return read_status(&pending[i].status);
        }
    }
    ArchiveProgress::Left
}

/// Which archive to wait for, given the answer to an archive request: the one with the id in it. An
/// answer without an id is refused where the archive has to be waited for, and else there is none.
pub fn wait_for_archive_completion(task: ArchiveTask, require_trackable_archive: bool) -> (result:
    Result<Option<String>, ArchiveError>)
    ensures
        result == (if task.file_id is None && require_trackable_archive {
            Err(ArchiveError::MissingFileId)
        } else {
            Ok(task.file_id)
        }),
{
    match task.file_id {
        None => if require_trackable_archive {
            Err(ArchiveError::MissingFileId)
        } else {
            Ok(None)
        },
        Some(file_id) => Ok(Some(file_id)),
    }
}

/// What a pass is in the middle of.
#[derive(Debug, Clone)]
pub enum PassStage {
    /// It does not know the cameras yet.
    Selecting,
    /// It asked for the archive of a segment.
    Submitting { end_ms: i64 },
    /// It waits for the archive of a segment to leave the pending ones.
    Waiting { end_ms: i64, file_id: String },
    /// It asked to delete the footage of a segment.
    Deleting { end_ms: i64 },
    /// It is done.
    Finished,
    /// It gave up.
    Failed,
}

/// What came of an action.
#[derive(Debug, Clone)]
pub enum PassEvent {
    /// The cameras of the console.
    Cameras(Vec<Camera>),
    /// The answer to an archive request.
    Submitted(ArchiveTask),
    /// The archives that are pending.
    Pending(Vec<PendingArchive>),
    /// The footage is deleted.
    Deleted,
    /// The console could not be asked, or refused.
    Failed { message: String },
}

/// What a pass wants done.
#[derive(Debug, Clone)]
pub enum PassAction {
    /// List the cameras of the console.
    ListCameras,
    /// Send an archive request.
    Submit(ArchiveVideoRequest),
    /// Wait, then list the pending archives, to see how the one with this id stands.
    AwaitPending { file_id: String, seconds: u64 },
    /// Delete the footage of a camera between two instants.
    Delete { camera_id: String, start_ms: i64, end_ms: i64 },
    /// Nothing: the pass is done.
    Finish(ArchiveReport),
    /// Nothing: the pass gave up.
    Fail(ArchiveError),
}

/// A pass as a mathematical value.
#[verifier::ext_equal]
pub struct PassState {
    pub config: Config,
    pub options: ArchiveOptions,
    /// The selected cameras.
    pub cameras: Seq<Camera>,
    pub range: ArchiveRange,
    /// The camera in work.
    pub camera_index: int,
    /// Where the segment in work begins.
    pub start_ms: int,
    pub archive_count: int,
    pub delete_count: int,
    pub stage: PassStage,
}

/// An action as a mathematical value.
#[verifier::ext_equal]
pub enum PassOrder {
    ListCameras,
    Submit { camera: Camera, start_ms: int, end_ms: int, filename: Seq<char> },
    AwaitPending { file_id: String, seconds: u64 },
    Delete { camera: Camera, start_ms: int, end_ms: int },
    Finish { camera_count: int, archive_count: int, delete_count: int },
    Fail { error: ArchiveError },
}

/// Whether an action is what a configuration makes of an order.
pub open spec fn carries_out(action: PassAction, order: PassOrder, config: &Config) -> bool {
    match order {
        PassOrder::ListCameras => action is ListCameras,
        PassOrder::Submit { camera, start_ms, end_ms, filename } => {
            action matches PassAction::Submit(request) && request_for(
                request,
                config,
                &camera,
                start_ms as i64,
                end_ms as i64,
                filename,
            ) && request.start == start_ms && request.end == end_ms
        },
        PassOrder::AwaitPending { file_id, seconds } => action == (PassAction::AwaitPending {
            file_id,
            seconds,
        }),
        PassOrder::Delete { camera, start_ms, end_ms } => {
            action matches PassAction::Delete { camera_id, start_ms: start, end_ms: end }
                && camera_id == camera.id && start == start_ms && end == end_ms
        },
        PassOrder::Finish { camera_count, archive_count, delete_count } => {
            action matches PassAction::Finish(report) && report.camera_count == camera_count
                && report.archive_count == archive_count && report.delete_count == delete_count
        },
        PassOrder::Fail { error } => action == PassAction::Fail(error),
    }
}

impl PassState {
    /// What a pass starts as.
    pub open spec fn initial(config: Config, options: ArchiveOptions) -> PassState {
        PassState {
            config,
            options,
            cameras: seq![],
            range: ArchiveRange { start_ms: 0, end_ms: 0 },
            camera_index: 0,
            start_ms: 0,
            archive_count: 0,
            delete_count: 0,
            stage: PassStage::Selecting,
        }
    }

    /// Whether the pass deletes what it archives.
    pub open spec fn deletes(self) -> bool {
        deletes(&self.config, &self.options)
    }

    /// The cameras that the pass is asked for.
    pub open spec fn requested(self) -> Seq<String> {
        if self.options.camera_filters@.len() == 0 {
            self.config.camera_ids@
        } else {
            self.options.camera_filters@
        }
    }

    /// Whether a segment is in work.
    pub open spec fn in_segment(self) -> bool {
        self.stage is Submitting || self.stage is Waiting || self.stage is Deleting
    }

    /// Where the segment in work ends.
    pub open spec fn segment_end(self) -> int {
        match self.stage {
            PassStage::Submitting { end_ms } => end_ms as int,
            PassStage::Waiting { end_ms, .. } => end_ms as int,
            PassStage::Deleting { end_ms } => end_ms as int,
            _ => 0,
        }
    }

    /// What holds of a pass at every point: the configuration was accepted, and nothing is deleted
    /// unless the pass deletes, and then everything that was archived.
    pub open spec fn accepted(self) -> bool {
        &&& config_error(&self.config, &self.options) is None
        &&& 0 <= self.camera_index <= self.cameras.len()
        &&& i64::MIN <= self.start_ms <= i64::MAX
        &&& 0 <= self.archive_count
        &&& self.delete_count == (if self.deletes() { self.archive_count } else { 0 })
    }

    /// What holds of a pass that waits for an event: besides, a segment in work belongs to a camera,
    /// and is waited for or deleted only where the configuration says so.
    pub open spec fn well_formed(self) -> bool {
        &&& self.accepted()
        &&& self.in_segment() ==> self.camera_index < self.cameras.len()
        &&& self.stage is Waiting ==> self.config.wait_for_archive_completion
        &&& self.stage is Deleting ==> self.deletes()
    }

    /// Whether an event can come at this point.
    pub open spec fn expects(self, event: PassEvent) -> bool {
        match event {
            PassEvent::Cameras(_) => self.stage is Selecting,
            PassEvent::Submitted(_) => self.stage is Submitting,
            PassEvent::Pending(_) => self.stage is Waiting,
            PassEvent::Deleted => self.stage is Deleting,
            PassEvent::Failed { .. } => self.stage is Selecting || self.in_segment(),
        }
    }

    /// The pass gives up.
    pub open spec fn failed(self, error: ArchiveError) -> (PassState, PassOrder) {
        (PassState { stage: PassStage::Failed, ..self }, PassOrder::Fail { error })
    }

    /// The pass goes on with what follows `start_ms` for the camera in work, and then with the
    /// other cameras. Cameras that are not connected are left out.
    pub open spec fn advanced(self) -> (PassState, PassOrder)
        decreases self.cameras.len() - self.camera_index,
    {
        if self.camera_index >= self.cameras.len() {
            (
                PassState { stage: PassStage::Finished, ..self },
                PassOrder::Finish {
                    camera_count: self.cameras.len() as int,
                    archive_count: self.archive_count,
                    delete_count: self.delete_count,
                },
            )
        } else {
            let camera = self.cameras[self.camera_index];
            let start_ms = self.start_ms;
            let next = PassState {
                camera_index: self.camera_index + 1,
                start_ms: self.range.start_ms as int,
                ..self
            };
            if camera.is_connected == Some(false) {
                next.advanced()
            } else {
                match segment_after(
                    start_ms,
                    self.range.end_ms as int,
                    self.config.segment_seconds,
                ) {
                    NextSegment::Overflow => self.failed(ArchiveError::Overflow),
                    NextSegment::Exhausted => next.advanced(),
                    NextSegment::Until(end_ms) => match filename_result(
                        camera.name@,
                        start_ms as i64,
                        end_ms,
                    ) {
                        Err(error) => self.failed(error),
                        Ok(filename) => (
                            PassState { stage: PassStage::Submitting { end_ms }, ..self },
                            PassOrder::Submit { camera, start_ms, end_ms: end_ms as int, filename },
                        ),
                    },
                }
            }
        }
    }

    /// The segment in work is over and done with.
    pub open spec fn completed(self) -> (PassState, PassOrder) {
        if self.archive_count >= usize::MAX {
            self.failed(ArchiveError::Overflow)
        } else {
            PassState {
                archive_count: self.archive_count + 1,
                delete_count: self.delete_count + (if self.deletes() { 1int } else { 0int }),
                start_ms: self.segment_end(),
                ..self
            }.advanced()
        }
    }

    /// The segment in work is archived: its footage is deleted next, if the pass deletes.
    pub open spec fn archived(self) -> (PassState, PassOrder) {
        if self.deletes() {
            (
                PassState {
                    stage: PassStage::Deleting { end_ms: self.segment_end() as i64 },
                    ..self
                },
                PassOrder::Delete {
                    camera: self.cameras[self.camera_index],
                    start_ms: self.start_ms,
                    end_ms: self.segment_end(),
                },
            )
        } else {
            self.completed()
        }
    }

    /// The pass goes on with the cameras of the console and a range, if there is one.
    pub open spec fn selecting(self, cameras: Seq<Camera>, range: Option<ArchiveRange>) -> (
        PassState,
        PassOrder,
    ) {
        let selected = camera_selection(cameras, self.requested());
        if self.requested().len() > 0 && selected.len() == 0 {
            self.failed(ArchiveError::NoCameraMatched)
        } else {
            match range {
                None => self.failed(ArchiveError::LookbackOutOfRange),
                Some(range) => PassState {
                    cameras: selected,
                    range,
                    camera_index: 0,
                    start_ms: range.start_ms as int,
                    ..self
                }.advanced(),
            }
        }
    }

    /// What the pass becomes and does on an event, if the clock shows the second `now`. The clock
    /// matters only for a lookback: a requested range is taken as it is.
    pub open spec fn stepped(self, event: PassEvent, now: int) -> (PassState, PassOrder) {
        match event {
            PassEvent::Cameras(cameras) => self.selecting(
                cameras@,
                range_at(&self.config, &self.options, now),
            ),
            PassEvent::Submitted(task) => if !self.config.wait_for_archive_completion {
                self.archived()
            } else {
                match task.file_id {
                    Some(file_id) => (
                        PassState {
                            stage: PassStage::Waiting {
                                end_ms: self.segment_end() as i64,
                                file_id,
                            },
                            ..self
                        },
                        PassOrder::AwaitPending {
                            file_id,
                            seconds: self.config.archive_status_poll_seconds,
                        },
                    ),
                    None => if self.deletes() {
                        self.failed(ArchiveError::MissingFileId)
                    } else {
                        self.archived()
                    },
                }
            },
            PassEvent::Pending(pending) => {
                let file_id = self.stage->Waiting_file_id;
                match progress_of(pending@, file_id@) {
                    ArchiveProgress::Left => self.archived(),
                    ArchiveProgress::Pending => (
                        self,
                        PassOrder::AwaitPending {
                            file_id,
                            seconds: self.config.archive_status_poll_seconds,
                        },
                    ),
                    ArchiveProgress::Failed => self.failed(ArchiveError::ArchiveFailed { file_id }),
                    ArchiveProgress::Canceled => self.failed(
                        ArchiveError::ArchiveCanceled { file_id },
                    ),
                }
            },
            PassEvent::Deleted => self.completed(),
            PassEvent::Failed { message } => if self.stage is Deleting {
                self.failed(
                    ArchiveError::DeleteFailed {
                        camera_name: self.cameras[self.camera_index].name,
                        reason: message,
                    },
                )
            } else {
                self.failed(ArchiveError::RequestFailed { message })
            },
        }
    }

    /// Whether the pass becomes `after` and wants `action` done on an event, if the clock shows the
    /// second `now`.
    pub open spec fn steps_to(
        self,
        event: PassEvent,
        now: int,
        after: PassState,
        action: PassAction,
    ) -> bool {
        &&& FIRST_SECOND <= now <= LAST_SECOND
        &&& after == self.stepped(event, now).0
        &&& carries_out(action, self.stepped(event, now).1, &self.config)
    }
}

/// An archive pass.
pub struct ArchivePass<'a> {
    config: &'a Config,
    options: ArchiveOptions,
    cameras: Vec<Camera>,
    range: ArchiveRange,
    camera_index: usize,
    start_ms: i64,
    archive_count: usize,
    delete_count: usize,
    stage: PassStage,
}

impl<'a> View for ArchivePass<'a> {
    type V = PassState;

    closed spec fn view(&self) -> PassState {
        PassState {
            config: *self.config,
            options: self.options,
            cameras: self.cameras@,
            range: self.range,
            camera_index: self.camera_index as int,
            start_ms: self.start_ms as int,
            archive_count: self.archive_count as int,
            delete_count: self.delete_count as int,
            stage: self.stage,
        }
    }
}

/// Starts a pass with nothing asked for beyond the configuration.
pub fn run_once(config: &Config) -> (result: Result<(ArchivePass<'_>, PassAction), ArchiveError>)
    ensures
        exists|options: ArchiveOptions|
            {
                &&& options.camera_filters@ == Seq::<String>::empty()
                &&& options.range is None
                &&& !options.delete_after_archive
                &&& !options.confirm_delete_after_archive
                &&& #[trigger] starts(result, config, options)
            },
{
    run_once_with_options(config, ArchiveOptions::default())
}

/// How a pass starts: a configuration or options that are not accepted are refused, else the
/// cameras are wanted first.
pub open spec fn starts(
    result: Result<(ArchivePass<'_>, PassAction), ArchiveError>,
    config: &Config,
    options: ArchiveOptions,
) -> bool {
    match config_error(config, &options) {
        Some(error) => result == Err::<(ArchivePass<'_>, PassAction), ArchiveError>(error),
        None => {
            &&& result matches Ok((pass, action))
            &&& pass@ == PassState::initial(*config, options)
            &&& pass@.well_formed()
            &&& carries_out(action, PassOrder::ListCameras, config)
        },
    }
}

/// Starts a pass.
pub fn run_once_with_options(config: &Config, options: ArchiveOptions) -> (result: Result<
    (ArchivePass<'_>, PassAction),
    ArchiveError,
>)
    ensures
        starts(result, config, options),
{
    match validate_config(config, &options) {
        Err(error) => Err(error),
        Ok(()) => {
            Ok(
                (
                    ArchivePass {
                        config,
                        options,
                        cameras: Vec::new(),
                        range: ArchiveRange { start_ms: 0, end_ms: 0 },
                        camera_index: 0,
                        start_ms: 0,
                        archive_count: 0,
                        delete_count: 0,
                        stage: PassStage::Selecting,
                    },
                    PassAction::ListCameras,
                ),
            )
        },
    }
}

impl<'a> ArchivePass<'a> {
    /// Whether an event can come at this point.
    pub fn expects(&self, event: &PassEvent) -> (result: bool)
        ensures
            result == self@.expects(*event),
    {
        match (event, &self.stage) {
            (PassEvent::Cameras(_), PassStage::Selecting) => true,
            (PassEvent::Submitted(_), PassStage::Submitting { .. }) => true,
            (PassEvent::Pending(_), PassStage::Waiting { .. }) => true,
            (PassEvent::Deleted, PassStage::Deleting { .. }) => true,
            (PassEvent::Failed { .. }, PassStage::Finished) => false,
            (PassEvent::Failed { .. }, PassStage::Failed) => false,
            (PassEvent::Failed { .. }, _) => true,
            _ => false,
        }
    }

    /// The cameras that are selected, once they are known.
    pub fn cameras(&self) -> (result: &[Camera])
        ensures
            result@ == self@.cameras,
    {
        self.cameras.as_slice()
    }

    fn deletes(&self) -> (result: bool)
        ensures
            result == self@.deletes(),
    {
        should_delete_after_archive(self.config, &self.options)
    }

    fn fail(&mut self, error: ArchiveError) -> (result: PassAction)
        requires
            old(self)@.accepted(),
        ensures
            final(self)@.well_formed(),
            final(self)@ == old(self)@.failed(error).0,
            result == PassAction::Fail(error),
    {
        self.stage = PassStage::Failed;
        PassAction::Fail(error)
    }

    /// Goes on with what follows `start_ms` for the camera in work, and then with the others.
    fn archive_camera(&mut self) -> (result: PassAction)
        requires
            old(self)@.accepted(),
        ensures
            final(self)@.well_formed(),
            final(self)@ == old(self)@.advanced().0,
            carries_out(result, old(self)@.advanced().1, &old(self)@.config),
    {
        let ghost before = self@;
        while self.camera_index < self.cameras.len()
            invariant
                self@.accepted(),
                self@.config == before.config,
                self@.advanced() == before.advanced(),
                before == old(self)@,
            decreases self.cameras.len() - self.camera_index,
        {
            let camera = &self.cameras[self.camera_index];
            if camera.is_connected != Some(false) {
                match next_segment(self.start_ms, self.range.end_ms, self.config.segment_seconds) {
                    NextSegment::Overflow => {
                        return self.fail(ArchiveError::Overflow);
                    },
                    NextSegment::Exhausted => {},
                    NextSegment::Until(end_ms) => {
                        match archive_request(self.config, camera, self.start_ms, end_ms) {
                            Err(error) => {
                                return self.fail(error);
                            },
                            Ok(request) => {
                                self.stage = PassStage::Submitting { end_ms };
                                return PassAction::Submit(request);
                            },
                        }
                    },
                }
            }
            self.camera_index = self.camera_index + 1;
            self.start_ms = self.range.start_ms;
        }
        self.stage = PassStage::Finished;
        PassAction::Finish(
            ArchiveReport {
                camera_count: self.cameras.len(),
                archive_count: self.archive_count,
                delete_count: self.delete_count,
            },
        )
    }

    /// The segment in work is over and done with.
    fn complete_segment(&mut self, end_ms: i64) -> (result: PassAction)
        requires
            old(self)@.accepted(),
            old(self)@.segment_end() == end_ms,
        ensures
            final(self)@.well_formed(),
            final(self)@ == old(self)@.completed().0,
            carries_out(result, old(self)@.completed().1, &old(self)@.config),
    {
        if self.archive_count == usize::MAX {
            return self.fail(ArchiveError::Overflow);
        }
        self.archive_count = self.archive_count + 1;
        if self.deletes() {
            self.delete_count = self.delete_count + 1;
        }
        self.start_ms = end_ms;
        self.archive_camera()
    }

    /// The segment in work is archived.
    fn segment_archived(&mut self, end_ms: i64) -> (result: PassAction)
        requires
            old(self)@.well_formed(),
            old(self)@.in_segment(),
            old(self)@.segment_end() == end_ms,
        ensures
            final(self)@.well_formed(),
            final(self)@ == old(self)@.archived().0,
            carries_out(result, old(self)@.archived().1, &old(self)@.config),
    {
        if self.deletes() {
            let camera_id = self.cameras[self.camera_index].id.clone();
            let start_ms = self.start_ms;
            self.stage = PassStage::Deleting { end_ms };
            PassAction::Delete { camera_id, start_ms, end_ms }
        } else {
            self.complete_segment(end_ms)
        }
    }

    /// Goes on with the cameras of the console and a range, if there is one.
    fn select(&mut self, cameras: Vec<Camera>, range: Option<ArchiveRange>) -> (result: PassAction)
        requires
            old(self)@.well_formed(),
        ensures
            final(self)@.well_formed(),
            final(self)@ == old(self)@.selecting(cameras@, range).0,
            carries_out(result, old(self)@.selecting(cameras@, range).1, &old(self)@.config),
    {
        match selected_cameras(cameras, camera_filters(self.config, &self.options)) {
            Err(error) => self.fail(error),
            Ok(selected) => match range {
                None => self.fail(ArchiveError::LookbackOutOfRange),
                Some(range) => {
                    self.cameras = selected;
                    self.range = range;
                    self.camera_index = 0;
                    self.start_ms = range.start_ms;
                    self.archive_camera()
                },
            },
        }
    }

    /// Takes in what came of the last action, and says what to do next. Where a lookback has to be
    /// settled, the clock is read.
    pub fn step(&mut self, event: PassEvent) -> (result: PassAction)
        requires
            old(self)@.well_formed(),
            old(self)@.expects(event),
        ensures
            final(self)@.well_formed(),
            exists|now: int| #[trigger] old(self)@.steps_to(event, now, final(self)@, result),
    {
        let ghost before = self@;
        match event {
            PassEvent::Cameras(cameras) => {
                let range = archive_range(self.config, &self.options);
                let ghost now = if before.options.range is Some {
                    0
                } else {
                    choose|now: int|
                        FIRST_SECOND <= now <= LAST_SECOND && range == #[trigger] lookback_range(
                            &before.config,
                            now,
                        )
                };
                let result = self.select(cameras, range);
                assert(before.steps_to(event, now, self@, result));
                result
            },
            _ => {
                let result = self.step_at(event, 0);
                assert(before.steps_to(event, 0, self@, result));
                result
            },
        }
    }

    /// Takes in what came of the last action, and says what to do next, if the clock shows the second
    /// `now`.
    pub fn step_at(&mut self, event: PassEvent, now: i64) -> (result: PassAction)
        requires
            old(self)@.well_formed(),
            old(self)@.expects(event),
        ensures
            final(self)@.well_formed(),
            final(self)@ == old(self)@.stepped(event, now as int).0,
            carries_out(result, old(self)@.stepped(event, now as int).1, &old(self)@.config),
    {
        match event {
            PassEvent::Cameras(cameras) => {
                let range = archive_range_at(self.config, &self.options, now);
                self.select(cameras, range)
            },
            PassEvent::Submitted(task) => {
                let end_ms = match &self.stage {
                    PassStage::Submitting { end_ms } => *end_ms,
                    _ => 0,
                };
                if !self.config.wait_for_archive_completion {
                    return self.segment_archived(end_ms);
                }
                match wait_for_archive_completion(task, self.deletes()) {
                    Err(error) => self.fail(error),
                    Ok(None) => self.segment_archived(end_ms),
                    Ok(Some(file_id)) => {
                        let seconds = self.config.archive_status_poll_seconds;
                        self.stage = PassStage::Waiting { end_ms, file_id: file_id.clone() };
                        PassAction::AwaitPending { file_id, seconds }
                    },
                }
            },
            PassEvent::Pending(pending) => {
                let (end_ms, file_id) = match &self.stage {
                    PassStage::Waiting { end_ms, file_id } => (*end_ms, file_id.clone()),
                    _ => (0, String::new()),
                };
                match archive_progress(&pending, file_id.as_str()) {
                    ArchiveProgress::Left => self.segment_archived(end_ms),
                    ArchiveProgress::Pending => PassAction::AwaitPending {
                        file_id,
                        seconds: self.config.archive_status_poll_seconds,
                    },
                    ArchiveProgress::Failed => self.fail(ArchiveError::ArchiveFailed { file_id }),
                    ArchiveProgress::Canceled => self.fail(
                        ArchiveError::ArchiveCanceled { file_id },
                    ),
                }
            },
            PassEvent::Deleted => {
                let end_ms = match &self.stage {
                    PassStage::Deleting { end_ms } => *end_ms,
                    _ => 0,
                };
                self.complete_segment(end_ms)
            },
            PassEvent::Failed { message } => match &self.stage {
                PassStage::Deleting { .. } => {
                    let camera_name = self.cameras[self.camera_index].name.clone();
                    self.fail(ArchiveError::DeleteFailed { camera_name, reason: message })
                },
                _ => self.fail(ArchiveError::RequestFailed { message }),
            },
        }
    }
}

} // verus!
