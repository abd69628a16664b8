//! What the command line asks for, and what is printed.

use crate::archiver::ArchiveRange;
use crate::config::Config;
use crate::protect::Camera;
use crate::timestamp::{
    has_zone, leap_second, milliseconds, reads_instant, rfc3339_instant, stands_for, timestamp_ms,
};
use vstd::prelude::*;
use vstd::string::*;

verus! {

/// Why a command line is refused.
#[derive(Debug, Clone)]
pub enum CliError {
    /// Only one end of a range is given.
    OneBound,
    /// An option holds no timestamp.
    InvalidTimestamp { label: String, reason: String },
    /// The file is there already.
    ConfigExists { path: String },
}

impl CliError {
    /// The text shown for the error.
    pub open spec fn message(&self) -> Seq<char> {
        match self {
            CliError::OneBound => "--start and --end must be provided together"@,
            CliError::InvalidTimestamp { label, .. } =>
                "failed to parse --"@ + label@ + "; use RFC 3339 with a timezone"@,
            CliError::ConfigExists { path } =>
                path@ + " already exists; pass --force to overwrite it"@,
        }
    }

    /// The text shown for the error.
    pub fn to_string(&self) -> (result: String)
        ensures
            result@ == self.message(),
    {
        match self {
            CliError::OneBound => "--start and --end must be provided together".to_owned(),
            CliError::InvalidTimestamp { label, .. } => "failed to parse --".to_owned().concat(
                label.as_str(),
            ).concat("; use RFC 3339 with a timezone"),
            CliError::ConfigExists { path } => path.clone().concat(
                " already exists; pass --force to overwrite it",
            ),
        }
    }

    /// The text of what caused the error, where something else did.
    pub open spec fn cause_text(&self) -> Option<Seq<char>> {
        match self {
            CliError::InvalidTimestamp { reason, .. } => Some(reason@),
            _ => None,
        }
    }

    /// The text of what caused the error, where something else did.
    pub fn cause(&self) -> (result: Option<String>)
        ensures
            match self.cause_text() {
                Some(text) => result matches Some(told) && told@ == text,
                None => result is None,
            },
    {
        match self {
            CliError::InvalidTimestamp { reason, .. } => Some(reason.clone()),
            _ => None,
        }
    }
}

/// Whether an error says that the option `label` holds no timestamp, and why.
pub open spec fn refuses_timestamp(error: CliError, label: Seq<char>, reason: Seq<char>) -> bool {
    error matches CliError::InvalidTimestamp { label: told, reason: why } && told@ == label && why@
        == reason
}

/// What is made of the timestamp that the option `label` holds. Without a zone there is no result,
/// and but for leap seconds there is one just where the timestamp stands for an instant, which it
/// then is.
pub open spec fn timestamp_parsed(
    result: Result<i64, CliError>,
    value: Seq<char>,
    label: Seq<char>,
) -> bool {
    &&& match rfc3339_instant(value) {
        Ok(instant) => result matches Ok(ms) && ms == milliseconds(instant),
        Err(reason) => result matches Err(error) && refuses_timestamp(error, label, reason),
    }
    &&& !has_zone(value) ==> result is Err
    &&& !leap_second(value) ==> reads_instant(result, value)
}

/// Reads the timestamp that the option `label` holds, as milliseconds since the Unix epoch.
pub fn parse_timestamp_ms(value: &str, label: &str) -> (result: Result<i64, CliError>)
    ensures
        timestamp_parsed(result, value@, label@),
{
    match timestamp_ms(value) {
        Ok(ms) => Ok(ms),
        Err(reason) => Err(CliError::InvalidTimestamp { label: label.to_owned(), reason }),
    }
}

/// Two timestamps that stand for the same instant, in whatever zones, are read as the same number of
/// milliseconds: those of the instant.
pub proof fn timestamps_of_one_instant_are_read_alike(
    value: Seq<char>,
    other: Seq<char>,
    label: Seq<char>,
    other_label: Seq<char>,
    result: Result<i64, CliError>,
    other_result: Result<i64, CliError>,
    instant: (i64, u16),
)
    requires
        timestamp_parsed(result, value, label),
        timestamp_parsed(other_result, other, other_label),
        !leap_second(value),
        !leap_second(other),
        stands_for(value, instant),
        stands_for(other, instant),
    ensures
        result is Ok,
        result->Ok_0 == milliseconds(instant),
        other_result == result,
{
}

/// A timestamp without a zone is refused, and the message names the option.
pub proof fn a_timestamp_without_a_zone_is_refused(
    value: Seq<char>,
    label: Seq<char>,
    result: Result<i64, CliError>,
)
    requires
        timestamp_parsed(result, value, label),
        !has_zone(value),
    ensures
        result is Err,
        result->Err_0.message() == "failed to parse --"@ + label
            + "; use RFC 3339 with a timezone"@,
{
}

/// Whether an end of a range is read from a timestamp with a zone, and but for leap seconds is the
/// instant that the timestamp stands for.
pub open spec fn bound_read(ms: i64, value: Seq<char>) -> bool {
    has_zone(value) && (!leap_second(value) ==> reads_instant(Ok::<i64, CliError>(ms), value))
}

/// What is made of the two ends of a range.
pub open spec fn range_parsed(
    result: Result<Option<ArchiveRange>, CliError>,
    start: Option<String>,
    end: Option<String>,
) -> bool {
    match (start, end) {
        (None, None) => result == Ok::<Option<ArchiveRange>, CliError>(None),
        (Some(start), Some(end)) => match (rfc3339_instant(start@), rfc3339_instant(end@)) {
            (Err(reason), _) => result matches Err(error) && refuses_timestamp(
                error,
                "start"@,
                reason,
            ),
            (Ok(_), Err(reason)) => result matches Err(error) && refuses_timestamp(
                error,
                "end"@,
                reason,
            ),
            (Ok(first), Ok(last)) => {
                &&& result is Ok && result->Ok_0 is Some
                &&& result->Ok_0->0.start_ms == milliseconds(first)
                &&& result->Ok_0->0.end_ms == milliseconds(last)
                &&& bound_read(result->Ok_0->0.start_ms, start@)
                &&& bound_read(result->Ok_0->0.end_ms, end@)
            },
        },
        _ => result == Err::<Option<ArchiveRange>, CliError>(CliError::OneBound),
    }
}

/// Reads the range that `--start` and `--end` ask for: both of them, or neither.
pub fn parse_range(start: Option<String>, end: Option<String>) -> (result: Result<
    Option<ArchiveRange>,
    CliError,
>)
    ensures
        range_parsed(result, start, end),
{
    match (start, end) {
        (None, None) => Ok(None),
        (Some(start), Some(end)) => match parse_timestamp_ms(start.as_str(), "start") {
            Err(error) => Err(error),
            Ok(start_ms) => match parse_timestamp_ms(end.as_str(), "end") {
                Err(error) => Err(error),
                Ok(end_ms) => Ok(Some(ArchiveRange { start_ms, end_ms })),
            },
        },
        _ => Err(CliError::OneBound),
    }
}

/// The configuration to write to a file; none if the file is there already and is not to be
/// overwritten.
pub fn init_config(path: &str, exists: bool, force: bool) -> (result: Result<Config, CliError>)
    ensures
        if exists && !force {
            result matches Err(CliError::ConfigExists { path: told }) && told@ == path@
        } else {
            result matches Ok(config) && config.has_defaults_but_tls() && !config.verify_tls
        },
{
    if exists && !force {
        return Err(CliError::ConfigExists { path: path.to_owned() });
    }
    Ok(Config::sample())
}

/// How something that may be unknown is printed.
pub open spec fn flag_text(flag: Option<bool>) -> Seq<char> {
    match flag {
        Some(true) => "true"@,
        Some(false) => "false"@,
        None => "unknown"@,
    }
}

fn write_flag(flag: Option<bool>) -> (result: &'static str)
    ensures
        result@ == flag_text(flag),
{
    match flag {
        Some(true) => "true",
        Some(false) => "false",
        None => "unknown",
    }
}

/// The line that is printed for a camera.
pub fn camera_line(camera: &Camera) -> (result: String)
    ensures
        result@ == camera.id@ + "\t"@ + camera.name@ + "\tconnected="@ + flag_text(
            camera.is_connected,
        ) + "\trecording="@ + flag_text(camera.is_recording),
{
    camera.id.clone().concat("\t").concat(camera.name.as_str()).concat("\tconnected=").concat(
        write_flag(camera.is_connected),
    ).concat("\trecording=").concat(write_flag(camera.is_recording))
}

/// What the daemon does next.
#[derive(Debug, Clone, Copy, PartialEq, Eq, Structural)]
pub enum DaemonStage {
    /// Load the configuration for a pass.
    Load,
    /// Run a pass.
    Pass,
    /// Load the configuration for the delay.
    Reload,
    /// Wait.
    Wait { seconds: u64 },
    /// Nothing: somebody asked to stop, and the daemon succeeded.
    Finished,
    /// Nothing: the configuration could not be loaded, and the daemon failed.
    Failed,
}

/// What came of it.
#[derive(Debug, Clone, Copy, PartialEq, Eq, Structural)]
pub enum DaemonEvent {
    /// The configuration is loaded, and names this delay.
    Loaded { poll_seconds: u64 },
    /// The configuration could not be loaded.
    NotLoaded,
    /// The pass is over.
    PassEnded { succeeded: bool },
    /// The delay is over.
    Waited,
    /// Somebody asked to stop.
    Interrupted,
}

impl DaemonStage {
    /// Whether an event can come at this point.
    pub open spec fn expects(self, event: DaemonEvent) -> bool {
        match self {
            DaemonStage::Load | DaemonStage::Reload => event is Loaded || event is NotLoaded,
            DaemonStage::Pass => event is PassEnded,
            DaemonStage::Wait { .. } => event is Waited || event is Interrupted,
            DaemonStage::Finished | DaemonStage::Failed => false,
        }
    }

    /// What the daemon does after an event that can come.
    pub open spec fn after(self, event: DaemonEvent) -> DaemonStage {
        match (self, event) {
            (DaemonStage::Load, DaemonEvent::Loaded { .. }) => DaemonStage::Pass,
            (DaemonStage::Pass, DaemonEvent::PassEnded { .. }) => DaemonStage::Reload,
            (DaemonStage::Reload, DaemonEvent::Loaded { poll_seconds }) => DaemonStage::Wait {
                seconds: poll_seconds,
            },
            (DaemonStage::Wait { .. }, DaemonEvent::Waited) => DaemonStage::Load,
            (DaemonStage::Wait { .. }, DaemonEvent::Interrupted) => DaemonStage::Finished,
            _ => DaemonStage::Failed,
        }
    }
}

/// What the daemon does first: it loads the configuration.
pub fn daemon_start() -> (result: DaemonStage)
    ensures
        result == DaemonStage::Load,
{
    DaemonStage::Load
}

/// Says what the daemon does after an event. A pass that failed does not stop it; a configuration
/// that cannot be loaded does.
pub fn daemon(stage: DaemonStage, event: DaemonEvent) -> (result: DaemonStage)
    requires
        stage.expects(event),
    ensures
        result == stage.after(event),
{
    match (stage, event) {
        (DaemonStage::Load, DaemonEvent::Loaded { .. }) => DaemonStage::Pass,
        (DaemonStage::Pass, DaemonEvent::PassEnded { .. }) => DaemonStage::Reload,
        (DaemonStage::Reload, DaemonEvent::Loaded { poll_seconds }) => DaemonStage::Wait {
            seconds: poll_seconds,
        },
        (DaemonStage::Wait { .. }, DaemonEvent::Waited) => DaemonStage::Load,
        (DaemonStage::Wait { .. }, DaemonEvent::Interrupted) => DaemonStage::Finished,
        _ => DaemonStage::Failed,
    }
}

/// The daemon up to some point: what it did, and what came of it.
pub struct DaemonRun {
    pub stages: Seq<DaemonStage>,
    pub events: Seq<DaemonEvent>,
}

impl DaemonRun {
    /// Whether event `i` could come, and the daemon did what it does on it.
    pub open spec fn step_at(self, i: int) -> bool {
        &&& self.stages[i].expects(self.events[i])
        &&& self.stages[i + 1] == self.stages[i].after(self.events[i])
    }

    /// Whether the daemon did what it does, from its start on.
    pub open spec fn started(self) -> bool {
        &&& self.stages.len() == self.events.len() + 1
        &&& self.stages[0] == DaemonStage::Load
        &&& forall|i: int| 0 <= i < self.events.len() ==> #[trigger] self.step_at(i)
    }
}

/// Each pass follows a configuration that was loaded for it. Whether or not the pass succeeded, the
/// daemon goes on to load the configuration again, to see how long to wait.
pub proof fn each_pass_has_its_own_configuration(run: DaemonRun, i: int)
    requires
        run.started(),
        0 <= i < run.stages.len(),
        run.stages[i] is Pass,
    ensures
        i > 0,
        run.stages[i - 1] == DaemonStage::Load,
        run.events[i - 1] is Loaded,
        i < run.events.len() ==> run.stages[i + 1] == DaemonStage::Reload,
{
    if i > 0 {
        assert(run.step_at(i - 1));
    }
    if i < run.events.len() {
        assert(run.step_at(i));
    }
}

/// Between two passes the daemon waits as long as the configuration says by then, and then loads
/// the configuration anew.
pub proof fn the_daemon_waits_and_reloads_between_passes(run: DaemonRun, i: int)
    requires
        run.started(),
        0 <= i && i + 4 < run.stages.len(),
        run.stages[i] is Pass,
    ensures
        run.events[i + 1] is Loaded,
        run.stages[i + 2] == (DaemonStage::Wait { seconds: run.events[i + 1]->poll_seconds }),
        run.events[i + 2] == DaemonEvent::Waited,
        run.stages[i + 3] == DaemonStage::Load,
        run.stages[i + 4] == (if run.events[i + 3] is Loaded {
            DaemonStage::Pass
        } else {
            DaemonStage::Failed
        }),
{
    assert(run.step_at(i));
    assert(run.step_at(i + 1));
    assert(run.step_at(i + 2));
    assert(run.step_at(i + 3));
}

/// The daemon succeeds only when somebody asked it to stop while it waited, and fails only when the
/// configuration could not be loaded; either way nothing follows. Nothing else ends it.
pub proof fn the_daemon_ends_on_a_request_or_without_a_configuration(run: DaemonRun, i: int)
    requires
        run.started(),
        0 <= i < run.stages.len(),
    ensures
        run.stages[i] is Finished <==> i > 0 && run.stages[i - 1] is Wait && run.events[i - 1]
            == DaemonEvent::Interrupted,
        run.stages[i] is Failed <==> i > 0 && run.events[i - 1] == DaemonEvent::NotLoaded,
        run.stages[i] is Finished || run.stages[i] is Failed ==> i == run.events.len(),
{
    if i > 0 {
        assert(run.step_at(i - 1));
    }
    if i < run.events.len() {
        assert(run.step_at(i));
    }
}

/// The daemon can be told what came of what it does: that the configuration is loaded or not, that
/// the pass is over, that the delay is over, or that somebody asked to stop while it waited.
pub proof fn the_daemon_can_be_told_what_came_of_it(stage: DaemonStage, event: DaemonEvent)
    ensures
        stage is Load || stage is Reload ==> (stage.expects(event) <==> event is Loaded
            || event is NotLoaded),
        stage is Pass ==> (stage.expects(event) <==> event is PassEnded),
        stage is Wait ==> (stage.expects(event) <==> event is Waited || event is Interrupted),
        stage is Finished || stage is Failed ==> !stage.expects(event),
{
}

} // verus!
