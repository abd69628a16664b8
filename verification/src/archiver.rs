//! What an archive pass is allowed to do, which cameras and which range it covers, and the
//! requests it makes of them.

use crate::client::{allows_client, refuses_client, ClientError, ProtectClient};
use crate::config::{AuthMethod, Config};
use crate::error::ArchiveError;
use crate::protect::{ArchiveVideoRequest, Camera};
use crate::text::{blank, is_blank, replace_chars, replaced, same_text};
use crate::timestamp::{
    file_place, file_timestamp, file_timestamp_result, read_clock, FIRST_SECOND, LAST_SECOND,
};
use vstd::hash_set::StringHashSet;
use vstd::prelude::*;
use vstd::string::*;

pub use crate::error::DELETE_CONFIRMATION;

verus! {

/// The lens that is archived.
pub const DEFAULT_LENS: u8 = 0;

/// The channel that is archived.
pub const DEFAULT_CHANNEL: u8 = 0;

/// What a pass has done.
#[derive(Debug, Clone)]
pub struct ArchiveReport {
    pub camera_count: usize,
    pub archive_count: usize,
    pub delete_count: usize,
}

/// What a single pass is asked for, beyond the configuration.
#[derive(Debug, Clone)]
pub struct ArchiveOptions {
    /// Ids or names of the cameras to archive; empty for those of the configuration.
    pub camera_filters: Vec<String>,
    /// The range to archive; without one, the configured lookback.
    pub range: Option<ArchiveRange>,
    /// Whether archived footage is deleted from the console.
    pub delete_after_archive: bool,
    /// Confirms the deletion.
    pub confirm_delete_after_archive: bool,
}

/// A range of milliseconds since the Unix epoch.
#[derive(Debug, Clone, Copy)]
pub struct ArchiveRange {
    pub start_ms: i64,
    pub end_ms: i64,
}

impl Default for ArchiveOptions {
    fn default() -> (result: Self)
        ensures
            result.camera_filters@ == Seq::<String>::empty(),
            result.range is None,
            !result.delete_after_archive,
            !result.confirm_delete_after_archive,
    {
        ArchiveOptions {
            camera_filters: Vec::new(),
            range: None,
            delete_after_archive: false,
            confirm_delete_after_archive: false,
        }
    }
}

/// Whether a pass deletes what it archives: the configuration or the options say so.
pub open spec fn deletes(config: &Config, options: &ArchiveOptions) -> bool {
    config.delete_after_archive || options.delete_after_archive
}

/// Whether deletion is confirmed: by the options, or by the exact text in the configuration.
pub open spec fn delete_confirmed(config: &Config, options: &ArchiveOptions) -> bool {
    options.confirm_delete_after_archive || config.delete_after_archive_confirmation@
        == DELETE_CONFIRMATION@
}

/// What is wrong with the storage settings of a NAS archive.
pub open spec fn nas_error(config: &Config) -> Option<ArchiveError> {
    if config.archive_destination@ != "NAS"@ {
        None
    } else if blank(config.archive_host@) {
        Some(ArchiveError::MissingHost)
    } else if blank(config.archive_shared_drive@) {
        Some(ArchiveError::MissingSharedDrive)
    } else {
        None
    }
}

/// What is wrong with the archive settings.
pub open spec fn settings_error(config: &Config) -> Option<ArchiveError> {
    if config.segment_seconds == 0 {
        Some(ArchiveError::ZeroSegment)
    } else if blank(config.archive_destination@) {
        Some(ArchiveError::MissingDestination)
    } else {
        nas_error(config)
    }
}

/// What is wrong with the requested range.
pub open spec fn range_error(options: &ArchiveOptions) -> Option<ArchiveError> {
    match options.range {
        Some(range) => if range.start_ms >= range.end_ms {
            Some(ArchiveError::ReversedRange)
        } else {
            None
        },
        None => None,
    }
}

/// What is wrong with the deletion settings.
pub open spec fn delete_error(config: &Config, options: &ArchiveOptions) -> Option<ArchiveError> {
    if !deletes(config, options) {
        None
    } else if !config.wait_for_archive_completion {
        Some(ArchiveError::DeleteWithoutWait)
    } else if !delete_confirmed(config, options) {
        Some(ArchiveError::DeleteUnconfirmed)
    } else {
        None
    }
}

/// The first thing that is wrong with a configuration and options.
pub open spec fn config_error(config: &Config, options: &ArchiveOptions) -> Option<ArchiveError> {
    match settings_error(config) {
        Some(error) => Some(error),
        None => match range_error(options) {
            Some(error) => Some(error),
            None => delete_error(config, options),
        },
    }
}

/// Failure with an error, where there is one.
pub open spec fn refused(error: Option<ArchiveError>) -> Result<(), ArchiveError> {
    match error {
        Some(error) => Err(error),
        None => Ok(()),
    }
}

/// Refuses a configuration and options that a pass must not start with.
pub fn validate_config(config: &Config, options: &ArchiveOptions) -> (result: Result<
    (),
    ArchiveError,
>)
    ensures
        result == refused(config_error(config, options)),
{
    match validate_archive_settings(config) {
        Err(error) => Err(error),
        Ok(()) => match validate_requested_range(options) {
            Err(error) => Err(error),
            Ok(()) => validate_delete_settings(config, options),
        },
    }
}

/// Refuses archive settings that no archive can be made with.
pub fn validate_archive_settings(config: &Config) -> (result: Result<(), ArchiveError>)
    ensures
        result == refused(settings_error(config)),
{
    match ensure_nonzero_segment(config) {
        Err(error) => Err(error),
        Ok(()) => match ensure_archive_destination(config) {
            Err(error) => Err(error),
            Ok(()) => ensure_nas_settings(config),
        },
    }
}

/// Refuses a segment length of zero.
pub fn ensure_nonzero_segment(config: &Config) -> (result: Result<(), ArchiveError>)
    ensures
        result == (if config.segment_seconds == 0 {
            Err(ArchiveError::ZeroSegment)
        } else {
            Ok(())
        }),
{
    if config.segment_seconds == 0 {
        return Err(ArchiveError::ZeroSegment);
    }
    Ok(())
}

/// Refuses a blank archive destination.
pub fn ensure_archive_destination(config: &Config) -> (result: Result<(), ArchiveError>)
    ensures
        result == (if blank(config.archive_destination@) {
            Err(ArchiveError::MissingDestination)
        } else {
            Ok(())
        }),
{
    if is_blank(config.archive_destination.as_str()) {
        return Err(ArchiveError::MissingDestination);
    }
    Ok(())
}

/// Refuses a NAS archive with a blank host or a blank shared drive.
pub fn ensure_nas_settings(config: &Config) -> (result: Result<(), ArchiveError>)
    ensures
        result == refused(nas_error(config)),
{
    if !same_text(config.archive_destination.as_str(), "NAS") {
        return Ok(());
    }
    if is_blank(config.archive_host.as_str()) {
        return Err(ArchiveError::MissingHost);
    }
    if is_blank(config.archive_shared_drive.as_str()) {
        return Err(ArchiveError::MissingSharedDrive);
    }
    Ok(())
}

/// Refuses a requested range that does not start before it ends.
pub fn validate_requested_range(options: &ArchiveOptions) -> (result: Result<(), ArchiveError>)
    ensures
        result == refused(range_error(options)),
{
    if let Some(range) = options.range {
        if range.start_ms >= range.end_ms {
            return Err(ArchiveError::ReversedRange);
        }
    }
    Ok(())
}

/// Refuses a deletion that would not wait for its archive, or that nobody confirmed.
pub fn validate_delete_settings(config: &Config, options: &ArchiveOptions) -> (result: Result<
    (),
    ArchiveError,
>)
    ensures
        result == refused(delete_error(config, options)),
{
    if !should_delete_after_archive(config, options) {
        return Ok(());
    }
    if !config.wait_for_archive_completion {
        return Err(ArchiveError::DeleteWithoutWait);
    }
    if !delete_after_archive_confirmed(config, options) {
        return Err(ArchiveError::DeleteUnconfirmed);
    }
    Ok(())
}

/// Whether a pass deletes what it archives.
pub fn should_delete_after_archive(config: &Config, options: &ArchiveOptions) -> (result: bool)
    ensures
        result == deletes(config, options),
{
    config.delete_after_archive || options.delete_after_archive
}

/// Whether deletion is confirmed.
pub fn delete_after_archive_confirmed(config: &Config, options: &ArchiveOptions) -> (result: bool)
    ensures
        result == delete_confirmed(config, options),
{
    options.confirm_delete_after_archive || same_text(
        config.delete_after_archive_confirmation.as_str(),
        DELETE_CONFIRMATION,
    )
}

/// The API key to use, given what the variable `api_key_env` holds.
pub open spec fn key_in_use(config: &Config, value: Option<String>) -> Option<String> {
    match (config.auth_method, value) {
        (AuthMethod::Password, _) => None,
        (_, Some(key)) => if blank(key@) {
            None
        } else {
            Some(key)
        },
        (_, None) => None,
    }
}

/// The API key to use, given what the variable `api_key_env` holds: none for authentication by
/// password.
pub fn api_key(config: &Config, value: Option<String>) -> (result: Option<String>)
    ensures
        result == key_in_use(config, value),
{
    match config.auth_method {
        AuthMethod::ApiKey | AuthMethod::Auto => config.api_key(value),
        AuthMethod::Password => None,
    }
}

/// Whether a client has to log in.
pub fn login_required(config: &Config, client: &ProtectClient) -> (result: bool)
    ensures
        result == (config.auth_method == AuthMethod::Password || client.api_key is None),
{
    config.auth_method == AuthMethod::Password || !client.uses_api_key()
}

/// A client as the configuration asks for it, given what the variable `api_key_env` holds; and
/// whether it has to log in before it is used.
pub fn authenticated_client(config: &Config, value: Option<String>) -> (result: Result<
    (ProtectClient, bool),
    ClientError,
>)
    ensures
        ({
            let key = key_in_use(config, value);
            if !allows_client(config.controller@, key) {
                result matches Err(error) && refuses_client(error, config.controller@, key)
            } else {
                result matches Ok(pair) && pair.0.controller@ == config.controller@
                    && pair.0.accept_invalid_certs == !config.verify_tls && pair.0.api_key == key
                    && pair.0.csrf_token is None && pair.1 == (key is None)
            }
        }),
{
    match ProtectClient::new(config.controller.as_str(), config.verify_tls, api_key(config, value)) {
        Err(error) => Err(error),
        Ok(client) => {
            let login = login_required(config, &client);
            Ok((client, login))
        },
    }
}

/// The cameras that a pass is asked for: those of the options, or else those of the configuration.
pub fn camera_filters<'a>(config: &'a Config, options: &'a ArchiveOptions) -> (result: &'a [String])
    ensures
        result@ == (if options.camera_filters@.len() == 0 {
            config.camera_ids@
        } else {
            options.camera_filters@
        }),
{
    if options.camera_filters.is_empty() {
        config.camera_ids.as_slice()
    } else {
        options.camera_filters.as_slice()
    }
}

/// Whether a camera is asked for, by its id or by its name.
pub open spec fn requested_camera(camera: Camera, requested: Seq<String>) -> bool {
    exists|i: int|
        0 <= i < requested.len() && (#[trigger] requested[i]@ == camera.id@ || requested[i]@
            == camera.name@)
}

/// The cameras that are asked for, in their order; all of them if none is asked for.
pub open spec fn camera_selection(cameras: Seq<Camera>, requested: Seq<String>) -> Seq<Camera> {
    if requested.len() == 0 {
        cameras
    } else {
        cameras.filter(|camera: Camera| requested_camera(camera, requested))
    }
}

/// Collects the texts of the cameras that are asked for.
fn requested_texts(requested: &[String]) -> (result: StringHashSet)
    ensures
        forall|text: Seq<char>| #[trigger]
            result@.contains(text) <==> exists|i: int|
                0 <= i < requested@.len() && #[trigger] requested@[i]@ == text,
{
    let mut result = StringHashSet::new();
    for i in 0..requested.len()
        invariant
            forall|text: Seq<char>| #[trigger]
                result@.contains(text) <==> exists|k: int|
                    0 <= k < i && #[trigger] requested@[k]@ == text,
    {
        let ghost before = result@;
        result.insert(requested[i].clone());
        assert forall|text: Seq<char>| #[trigger]
            result@.contains(text) <==> exists|k: int|
                0 <= k < i + 1 && #[trigger] requested@[k]@ == text by {
            assert(requested@[i as int]@ == requested@[i as int]@);
            if before.contains(text) {
                let k = choose|k: int| 0 <= k < i && #[trigger] requested@[k]@ == text;
                assert(requested@[k]@ == text);
            }
        }
    }
    result
}

/// Selects the cameras that are asked for, and fails if none of them is there.
pub fn selected_cameras(cameras: Vec<Camera>, requested: &[String]) -> (result: Result<
    Vec<Camera>,
    ArchiveError,
>)
    ensures
        if requested@.len() > 0 && camera_selection(cameras@, requested@).len() == 0 {
            result == Err::<Vec<Camera>, ArchiveError>(ArchiveError::NoCameraMatched)
        } else {
            result matches Ok(selected) && selected@ == camera_selection(cameras@, requested@)
        },
{
    if requested.len() == 0 {
        return Ok(cameras);
    }
    let requested_set = requested_texts(requested);
    let ghost all = cameras@;
    let ghost wanted = |camera: Camera| requested_camera(camera, requested@);
    let mut selected: Vec<Camera> = Vec::new();
    proof {
        reveal(Seq::filter);
        assert(all.take(0).filter(wanted) =~= selected@);
    }
    for camera in it: cameras
        invariant
            it.seq() == all,
            wanted == (|camera: Camera| requested_camera(camera, requested@)),
            forall|text: Seq<char>| #[trigger]
                requested_set@.contains(text) <==> exists|i: int|
                    0 <= i < requested@.len() && #[trigger] requested@[i]@ == text,
            selected@ == all.take(it.index() as int).filter(wanted),
    {
        proof {
            let k = it.index() as int;
            reveal(Seq::filter);
            assert(all.take(k + 1).drop_last() =~= all.take(k));
            assert(all.take(k + 1).last() == camera);
        }
        if requested_set.contains(camera.id.as_str()) || requested_set.contains(
            camera.name.as_str(),
        ) {
            selected.push(camera);
        }
    }
    assert(all.take(all.len() as int) =~= all);
    if selected.len() == 0 {
        return Err(ArchiveError::NoCameraMatched);
    }
    Ok(selected)
}

/// A number brought into the range of a signed one.
pub open spec fn saturated(n: int) -> int {
    if n < i64::MIN {
        i64::MIN as int
    } else if n > i64::MAX {
        i64::MAX as int
    } else {
        n
    }
}

/// The range of a pass without a requested one that starts at second `now`: it ends
/// `minimum_age_seconds` before, on a full second, and is `lookback_seconds` long. There is none
/// if it would end outside the years that a date can have, or if its length in milliseconds is no
/// signed 64-bit number.
pub open spec fn lookback_range(config: &Config, now: int) -> Option<ArchiveRange> {
    let end = now - config.minimum_age_seconds;
    if !(FIRST_SECOND <= end <= LAST_SECOND) || config.lookback_seconds * 1000 > i64::MAX {
        None
    } else {
        Some(
            ArchiveRange {
                start_ms: saturated(end * 1000 - config.lookback_seconds * 1000) as i64,
                end_ms: (end * 1000) as i64,
            },
        )
    }
}

/// The range of a pass without a requested one that starts at second `now`.
pub fn lookback_range_at(config: &Config, now: i64) -> (result: Option<ArchiveRange>)
    ensures
        result == lookback_range(config, now as int),
{
    let end: i128 = now as i128 - config.minimum_age_seconds as i128;
    if end < FIRST_SECOND as i128 || end > LAST_SECOND as i128 {
        return None;
    }
    let length: i128 = config.lookback_seconds as i128 * 1000;
    if length > i64::MAX as i128 {
        return None;
    }
    let end_ms: i64 = end as i64 * 1000;
    let start: i128 = end_ms as i128 - length;
    let start_ms: i64 = if start < i64::MIN as i128 {
        i64::MIN
    } else {
        start as i64
    };
    Some(ArchiveRange { start_ms, end_ms })
}

/// Whether a range is the one of a pass that starts now, whatever the clock shows.
pub open spec fn is_lookback_range(config: &Config, range: Option<ArchiveRange>) -> bool {
    exists|now: int|
        FIRST_SECOND <= now <= LAST_SECOND && range == #[trigger] lookback_range(config, now)
}

/// The range of a pass without a requested one that starts now.
pub fn default_archive_range(config: &Config) -> (result: Option<ArchiveRange>)
    ensures
        is_lookback_range(config, result),
{
    lookback_range_at(config, read_clock())
}

/// The range of a pass that starts at second `now`: the requested one, or else the configured
/// lookback.
pub open spec fn range_at(config: &Config, options: &ArchiveOptions, now: int) -> Option<
    ArchiveRange,
> {
    match options.range {
        Some(requested) => Some(requested),
        None => lookback_range(config, now),
    }
}

/// The range of a pass that starts at second `now`.
pub fn archive_range_at(config: &Config, options: &ArchiveOptions, now: i64) -> (result: Option<
    ArchiveRange,
>)
    ensures
        result == range_at(config, options, now as int),
{
    match options.range {
        Some(range) => Some(range),
        None => lookback_range_at(config, now),
    }
}

/// The range of a pass that starts now: the requested one, or else the configured lookback.
pub fn archive_range(config: &Config, options: &ArchiveOptions) -> (result: Option<ArchiveRange>)
    ensures
        match options.range {
            Some(range) => result == Some(range),
            None => is_lookback_range(config, result),
        },
{
    match options.range {
        Some(range) => Some(range),
        None => default_archive_range(config),
    }
}

/// The characters of a camera name that do not go into a file name.
pub open spec fn unsafe_chars() -> Seq<char> {
    "<>:\"/\\|?*"@
}

/// What `archive_filename` returns.
pub open spec fn filename_result(camera_name: Seq<char>, start_ms: i64, end_ms: i64) -> Result<
    Seq<char>,
    ArchiveError,
> {
    match (file_timestamp_result(start_ms), file_timestamp_result(end_ms)) {
        (Err(error), _) => Err(error),
        (Ok(_), Err(error)) => Err(error),
        (Ok(start), Ok(end)) => Ok(
            replaced(camera_name, unsafe_chars(), '_') + " "@ + start + " - "@ + end + ".mp4"@,
        ),
    }
}

/// The name of the file for the footage of a camera between two instants: the name of the camera
/// and both instants, without a character that a file name must not have.
pub fn archive_filename(camera: &Camera, start_ms: i64, end_ms: i64) -> (result: Result<
    String,
    ArchiveError,
>)
    ensures
        match filename_result(camera.name@, start_ms, end_ms) {
            Ok(name) => result matches Ok(written) && written@ == name,
            Err(error) => result == Err::<String, ArchiveError>(error),
        },
        result matches Ok(written) ==> forall|i: int|
            0 <= i < written@.len() ==> !unsafe_chars().contains(#[trigger] written@[i]),
{
    let safe_camera_name = replace_chars(camera.name.as_str(), "<>:\"/\\|?*", '_');
    match file_timestamp(start_ms) {
        Err(error) => Err(error),
        Ok(start) => match file_timestamp(end_ms) {
            Err(error) => Err(error),
            Ok(end) => {
                let name = safe_camera_name.concat(" ").concat(start.as_str()).concat(
                    " - ",
                ).concat(end.as_str()).concat(".mp4");
                proof {
                    reveal_strlit("<>:\"/\\|?*");
                    reveal_strlit(" ");
                    reveal_strlit(" - ");
                    reveal_strlit(".mp4");
                    assert forall|i: int| 0 <= i < name@.len() implies !unsafe_chars().contains(
                        #[trigger] name@[i],
                    ) by {
                        let head = replaced(camera.name@, unsafe_chars(), '_');
                        if i < head.len() {
                            assert(name@[i] == head[i]);
                        } else if i < head.len() + 1 {
                            assert(name@[i] == ' ');
                        } else if i < head.len() + 1 + start@.len() {
                            assert(name@[i] == start@[i - head.len() - 1]);
                            assert(file_place(i - head.len() - 1, start@[i - head.len() - 1]));
                        } else if i < head.len() + 4 + start@.len() {
                        } else if i < head.len() + 4 + start@.len() + end@.len() {
                            assert(name@[i] == end@[i - head.len() - 4 - start@.len()]);
                            let at = i - head.len() - 4 - start@.len();
                            assert(file_place(at, end@[at]));
                        }
                    }
                }
                Ok(name)
            },
        },
    }
}

/// Whether a request asks for the footage of a camera between two instants, under a file name, and
/// for the storage that the configuration names.
pub open spec fn request_for(
    request: ArchiveVideoRequest,
    config: &Config,
    camera: &Camera,
    start_ms: i64,
    end_ms: i64,
    filename: Seq<char>,
) -> bool {
    &&& request.start == start_ms
    &&& request.end == end_ms
    &&& request.filename@ == filename
    &&& request.lens == DEFAULT_LENS
    &&& request.destination == config.archive_destination
    &&& request.camera_id == camera.id
    &&& request.archive_type@ == "rotating"@
    &&& request.channel == DEFAULT_CHANNEL
    &&& request.fps is None
    &&& request.host == config.archive_host
    &&& request.shared_drive == config.archive_shared_drive
}

/// The request for the footage of a camera between two instants.
pub fn archive_request(config: &Config, camera: &Camera, start_ms: i64, end_ms: i64) -> (result:
    Result<ArchiveVideoRequest, ArchiveError>)
    ensures
        match filename_result(camera.name@, start_ms, end_ms) {
            Ok(filename) => result matches Ok(request) && request_for(
                request,
                config,
                camera,
                start_ms,
                end_ms,
                filename,
            ),
            Err(error) => result == Err::<ArchiveVideoRequest, ArchiveError>(error),
        },
{
    match archive_filename(camera, start_ms, end_ms) {
        Err(error) => Err(error),
        Ok(filename) => Ok(
            ArchiveVideoRequest {
                start: start_ms,
                end: end_ms,
                filename,
                lens: DEFAULT_LENS,
                destination: config.archive_destination.clone(),
                camera_id: camera.id.clone(),
                archive_type: "rotating".to_owned(),
                channel: DEFAULT_CHANNEL,
                fps: None,
                host: config.archive_host.clone(),
                shared_drive: config.archive_shared_drive.clone(),
            },
        ),
    }
}

/// What is left of a range to archive.
#[derive(Debug, Clone, Copy, PartialEq, Eq, Structural)]
pub enum NextSegment {
    /// Nothing: a second or less.
    Exhausted,
    /// A segment that ends at this millisecond comes next.
    Until(i64),
    /// The length or the end of the next segment is no signed 64-bit number of milliseconds.
    Overflow,
}

/// The segment of a range that begins at `start_ms`. It is `segment_seconds` long, or ends with the
/// range; the last second of the range is no segment of its own.
pub open spec fn segment_after(start_ms: int, range_end_ms: int, segment_seconds: u64) -> NextSegment {
    if segment_seconds * 1000 > u64::MAX || start_ms + 1000 > i64::MAX {
        NextSegment::Overflow
    } else if start_ms + 1000 >= range_end_ms {
        NextSegment::Exhausted
    } else if segment_seconds * 1000 > i64::MAX || start_ms + segment_seconds * 1000 > i64::MAX {
        NextSegment::Overflow
    } else if start_ms + segment_seconds * 1000 < range_end_ms {
        NextSegment::Until((start_ms + segment_seconds * 1000) as i64)
    } else {
        NextSegment::Until(range_end_ms as i64)
    }
}

/// The segment of a range that begins at `start_ms`.
pub fn next_segment(start_ms: i64, range_end_ms: i64, segment_seconds: u64) -> (result: NextSegment)
    ensures
        result == segment_after(start_ms as int, range_end_ms as int, segment_seconds),
{
    let segment_ms: u64 = match segment_seconds.checked_mul(1000) {
        Some(length) => length,
        None => {
            return NextSegment::Overflow;
        },
    };
    match start_ms.checked_add(1000) {
        None => NextSegment::Overflow,
        Some(threshold) => if threshold >= range_end_ms {
            NextSegment::Exhausted
        } else if segment_ms > i64::MAX as u64 {
            NextSegment::Overflow
        } else {
            match start_ms.checked_add(segment_ms as i64) {
                None => NextSegment::Overflow,
                Some(end_ms) => if end_ms < range_end_ms {
                    NextSegment::Until(end_ms)
                } else {
                    NextSegment::Until(range_end_ms)
                },
            }
        },
    }
}

/// A pass that deletes waits for its archives, and somebody confirmed the deletion.
pub proof fn deletion_is_waited_for_and_confirmed(config: Config, options: ArchiveOptions)
    requires
        config_error(&config, &options) is None,
        deletes(&config, &options),
    ensures
        config.wait_for_archive_completion,
        delete_confirmed(&config, &options),
{
}

/// Nothing is deleted unless the configuration or the options are changed to say so.
pub proof fn deletion_is_off_by_default(config: Config, options: ArchiveOptions)
    requires
        config.has_defaults_but_tls(),
        !options.delete_after_archive,
    ensures
        !deletes(&config, &options),
        config.wait_for_archive_completion,
        config.delete_after_archive_confirmation@ != DELETE_CONFIRMATION@,
{
    reveal_strlit("DELETE_PROTECT_FOOTAGE_AFTER_ARCHIVE");
    assert(DELETE_CONFIRMATION@.len() == 36);
}

/// Where a range is taken from the clock, it ends `minimum_age_seconds` before now and is
/// `lookback_seconds` long, if both instants are 64-bit numbers of milliseconds.
pub proof fn lookback_stops_short_of_recent_footage(config: Config, now: int)
    requires
        FIRST_SECOND <= now - config.minimum_age_seconds <= LAST_SECOND,
        config.lookback_seconds * 1000 <= i64::MAX,
        (now - config.minimum_age_seconds - config.lookback_seconds) * 1000 >= i64::MIN,
    ensures
        lookback_range(&config, now) is Some,
        lookback_range(&config, now)->0.end_ms == (now - config.minimum_age_seconds) * 1000,
        lookback_range(&config, now)->0.start_ms == (now - config.minimum_age_seconds
            - config.lookback_seconds) * 1000,
{
}

/// A camera is selected exactly if no camera is asked for, or this one by its id or its name.
pub proof fn selection_is_by_id_or_name(cameras: Seq<Camera>, requested: Seq<String>, camera: Camera)
    requires
        cameras.contains(camera),
    ensures
        camera_selection(cameras, requested).contains(camera) <==> requested.len() == 0
            || requested_camera(camera, requested),
{
    broadcast use vstd::seq_lib::group_filter_ensures;

    let wanted = |camera: Camera| requested_camera(camera, requested);
    if requested.len() > 0 {
        if requested_camera(camera, requested) {
            let i = choose|i: int| 0 <= i < cameras.len() && cameras[i] == camera;
            cameras.lemma_filter_contains(wanted, i);
        } else if cameras.filter(wanted).contains(camera) {
            let i = choose|i: int|
                0 <= i < cameras.filter(wanted).len() && cameras.filter(wanted)[i] == camera;
            assert(wanted(cameras.filter(wanted)[i]));
        }
    }
}

} // verus!
