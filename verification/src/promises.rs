//! What the functions of the archiver and of the command line promise, over their arguments and
//! their results.

use crate::archiver::{
    api_key, archive_filename, archive_range, archive_range_at, archive_request,
    authenticated_client, camera_filters, default_archive_range, delete_after_archive_confirmed,
    lookback_range_at, next_segment, selected_cameras, should_delete_after_archive,
    validate_config, ArchiveOptions, ArchiveRange, NextSegment,
};
use crate::cli::{camera_line, parse_range, parse_timestamp_ms, CliError};
use crate::client::{ClientError, ProtectClient};
use crate::config::{AuthMethod, Config};
use crate::error::ArchiveError;
use crate::pass::{carries_out, run_once_with_options, ArchivePass, PassAction, PassOrder};
use crate::protect::{ArchiveVideoRequest, Camera};
use crate::text::white_space;
use crate::timestamp::{file_timestamp, rfc3339_instant, rfc3339_utc};
use crate::url_text::url_error;
use vstd::prelude::*;
use vstd::utf8::*;

verus! {

/// Whether every character of a text is white space.
pub open spec fn all_white(text: Seq<char>) -> bool {
    forall|i: int| 0 <= i < text.len() ==> white_space(#[trigger] text[i])
}

/// A configuration and options are accepted exactly if segments have a length, a destination is set,
/// a NAS has a host and a shared drive, a requested range starts before it ends, and a deletion is
/// waited for and confirmed. Else the first of these that does not hold is the error.
pub proof fn a_configuration_is_refused_for_its_first_fault(
    config: &Config,
    options: &ArchiveOptions,
    result: Result<(), ArchiveError>,
)
    requires
        call_ensures(validate_config, (config, options), result),
    ensures
        ({
            let segment = config.segment_seconds > 0;
            let destination = !all_white(config.archive_destination@);
            let nas = config.archive_destination@ == "NAS"@;
            let host = nas ==> !all_white(config.archive_host@);
            let drive = nas ==> !all_white(config.archive_shared_drive@);
            let range = options.range is Some ==> options.range->0.start_ms
                < options.range->0.end_ms;
            let delete = config.delete_after_archive || options.delete_after_archive;
            let waited = delete ==> config.wait_for_archive_completion;
            let confirmed = delete ==> options.confirm_delete_after_archive
                || config.delete_after_archive_confirmation@
                == "DELETE_PROTECT_FOOTAGE_AFTER_ARCHIVE"@;
            &&& result is Ok <==> segment && destination && host && drive && range && waited
                && confirmed
            &&& result is Err ==> result->Err_0 == (if !segment {
                ArchiveError::ZeroSegment
            } else if !destination {
                ArchiveError::MissingDestination
            } else if !host {
                ArchiveError::MissingHost
            } else if !drive {
                ArchiveError::MissingSharedDrive
            } else if !range {
                ArchiveError::ReversedRange
            } else if !waited {
                ArchiveError::DeleteWithoutWait
            } else {
                ArchiveError::DeleteUnconfirmed
            })
        }),
{
}

/// Footage is deleted exactly if the configuration or the options say so, whatever else they hold.
pub proof fn deletion_is_switched_on_by_the_configuration_or_the_options(
    config: &Config,
    options: &ArchiveOptions,
    other_config: &Config,
    other_options: &ArchiveOptions,
    result: bool,
    other: bool,
)
    requires
        call_ensures(should_delete_after_archive, (config, options), result),
        call_ensures(should_delete_after_archive, (other_config, other_options), other),
    ensures
        result <==> config.delete_after_archive || options.delete_after_archive,
        config.delete_after_archive == other_config.delete_after_archive
            && options.delete_after_archive == other_options.delete_after_archive ==> result
            == other,
{
}

/// A deletion is confirmed exactly if the options confirm it, or the configuration holds the very
/// text that does.
pub proof fn deletion_is_confirmed_by_a_flag_or_the_exact_text(
    config: &Config,
    options: &ArchiveOptions,
    result: bool,
)
    requires
        call_ensures(delete_after_archive_confirmed, (config, options), result),
    ensures
        result <==> options.confirm_delete_after_archive
            || config.delete_after_archive_confirmation@
            == "DELETE_PROTECT_FOOTAGE_AFTER_ARCHIVE"@,
{
}

/// An API key is used exactly if authentication is not by password and the key is not blank; it is
/// then the very value that was given.
pub proof fn an_api_key_is_used_unless_blank_or_by_password(
    config: &Config,
    value: Option<String>,
    result: Option<String>,
)
    requires
        call_ensures(api_key, (config, value), result),
    ensures
        result is Some <==> config.auth_method != AuthMethod::Password && value is Some
            && !all_white(value->0@),
        result is Some ==> result == value,
{
}

/// There is a client exactly if the controller is a URL and the API key in use, where there is one,
/// holds no control character but tabs. It has to log in exactly if it has no API key.
pub proof fn a_client_needs_a_url_and_a_key_for_a_header(
    config: &Config,
    value: Option<String>,
    result: Result<(ProtectClient, bool), ClientError>,
)
    requires
        call_ensures(authenticated_client, (config, value), result),
    ensures
        ({
            let used = config.auth_method != AuthMethod::Password && value is Some && !all_white(
                value->0@,
            );
            let bytes = encode_utf8(value->0@);
            let fits = forall|i: int|
                0 <= i < bytes.len() ==> #[trigger] bytes[i] == 9 || bytes[i] >= 32 && bytes[i]
                    != 127;
            &&& result is Ok <==> url_error(config.controller@) is None && (used ==> fits)
            &&& result is Ok ==> {
                let (client, login) = result->Ok_0;
                &&& client.controller@ == config.controller@
                &&& client.accept_invalid_certs == !config.verify_tls
                &&& client.api_key == (if used { value } else { None })
                &&& client.csrf_token is None
                &&& login == !used
            }
            &&& result is Err ==> (result->Err_0 is InvalidController <==> url_error(
                config.controller@,
            ) is Some)
            &&& result is Err ==> result->Err_0 is InvalidController
                || result->Err_0 is InvalidApiKey
        }),
{
}

/// Each camera that one of the requested texts names, at whatever place of the list, by its id or
/// its name, is selected; and no other is, if anything is requested. The selected cameras stand in
/// the order in which they were listed.
pub proof fn every_requested_camera_is_selected(
    cameras: Vec<Camera>,
    requested: &[String],
    result: Result<Vec<Camera>, ArchiveError>,
    c: int,
)
    requires
        call_ensures(selected_cameras, (cameras, requested), result),
        0 <= c < cameras@.len(),
    ensures
        requested@.len() == 0 ==> result is Ok && result->Ok_0@ == cameras@,
        forall|k: int|
            0 <= k < requested@.len() && (#[trigger] requested@[k]@ == cameras@[c].id@
                || requested@[k]@ == cameras@[c].name@) ==> result is Ok
                && result->Ok_0@.contains(cameras@[c]),
        requested@.len() > 0 && result is Ok && result->Ok_0@.contains(cameras@[c]) ==> exists|
            k: int,
        |
            0 <= k < requested@.len() && (#[trigger] requested@[k]@ == cameras@[c].id@
                || requested@[k]@ == cameras@[c].name@),
        result is Ok ==> is_in_order(result->Ok_0@, cameras@),
{
    lemma_is_in_order_whole(cameras@);
    if requested@.len() > 0 {
        let wanted = |camera: Camera|
            exists|k: int|
                0 <= k < requested@.len() && (#[trigger] requested@[k]@ == camera.id@
                    || requested@[k]@ == camera.name@);
        lemma_selection_is_filter(cameras@, requested@);
        let selected = cameras@.filter(wanted);
        lemma_filter_in_order(cameras@, wanted);
        if exists|k: int|
            0 <= k < requested@.len() && (#[trigger] requested@[k]@ == cameras@[c].id@
                || requested@[k]@ == cameras@[c].name@) {
            assert(wanted(cameras@[c]));
            cameras@.lemma_filter_contains(wanted, c);
            assert(selected.len() > 0);
        }
        if selected.contains(cameras@[c]) {
            let i = choose|i: int| 0 <= i < selected.len() && selected[i] == cameras@[c];
            cameras@.lemma_filter_pred(wanted, i);
        }
    }
}

/// Whether the elements of one sequence occur in another one in the same order.
pub open spec fn is_in_order<A>(part: Seq<A>, whole: Seq<A>) -> bool
    decreases whole.len(),
{
    if part.len() == 0 {
        true
    } else if whole.len() == 0 {
        false
    } else {
        is_in_order(part, whole.drop_last()) || part.last() == whole.last() && is_in_order(
            part.drop_last(),
            whole.drop_last(),
        )
    }
}

proof fn lemma_is_in_order_whole<A>(whole: Seq<A>)
    ensures
        is_in_order(whole, whole),
    decreases whole.len(),
{
    if whole.len() > 0 {
        lemma_is_in_order_whole(whole.drop_last());
    }
}

proof fn lemma_filter_in_order<A>(whole: Seq<A>, keep: spec_fn(A) -> bool)
    ensures
        is_in_order(whole.filter(keep), whole),
    decreases whole.len(),
{
    reveal(Seq::filter);
    if whole.len() > 0 {
        lemma_filter_in_order(whole.drop_last(), keep);
        if keep(whole.last()) {
            assert(whole.filter(keep).drop_last() =~= whole.drop_last().filter(keep));
        }
    }
}

proof fn lemma_selection_is_filter(cameras: Seq<Camera>, requested: Seq<String>)
    requires
        requested.len() > 0,
    ensures
        crate::archiver::camera_selection(cameras, requested) == cameras.filter(
            |camera: Camera|
                exists|k: int|
                    0 <= k < requested.len() && (#[trigger] requested[k]@ == camera.id@
                        || requested[k]@ == camera.name@),
        ),
{
    let wanted = |camera: Camera|
        exists|k: int|
            0 <= k < requested.len() && (#[trigger] requested[k]@ == camera.id@ || requested[k]@
                == camera.name@);
    let asked = |camera: Camera| crate::archiver::requested_camera(camera, requested);
    assert(wanted =~= asked);
}

/// Whether a text is among some texts.
pub open spec fn lists(texts: Seq<String>, text: Seq<char>) -> bool {
    exists|k: int| 0 <= k < texts.len() && #[trigger] texts[k]@ == text
}

/// Which cameras are selected depends on which texts are requested, not on their order, nor on how
/// often one is requested.
pub proof fn selection_ignores_the_order_of_the_requested_texts(
    cameras: Vec<Camera>,
    requested: &[String],
    other_requested: &[String],
    result: Result<Vec<Camera>, ArchiveError>,
    other: Result<Vec<Camera>, ArchiveError>,
)
    requires
        call_ensures(selected_cameras, (cameras, requested), result),
        call_ensures(selected_cameras, (cameras, other_requested), other),
        forall|text: Seq<char>| #[trigger]
            lists(requested@, text) <==> lists(other_requested@, text),
    ensures
        result is Ok == other is Ok,
        result is Ok ==> result->Ok_0@ == other->Ok_0@,
{
    if requested@.len() > 0 {
        assert(lists(requested@, requested@[0]@));
    }
    if other_requested@.len() > 0 {
        assert(lists(requested@, other_requested@[0]@) == lists(
            other_requested@,
            other_requested@[0]@,
        ));
        assert(lists(other_requested@, other_requested@[0]@));
    }
    if requested@.len() > 0 {
        lemma_selection_is_filter(cameras@, requested@);
        lemma_selection_is_filter(cameras@, other_requested@);
        let wanted = |camera: Camera|
            exists|k: int|
                0 <= k < requested@.len() && (#[trigger] requested@[k]@ == camera.id@
                    || requested@[k]@ == camera.name@);
        let other_wanted = |camera: Camera|
            exists|k: int|
                0 <= k < other_requested@.len() && (#[trigger] other_requested@[k]@ == camera.id@
                    || other_requested@[k]@ == camera.name@);
        assert forall|camera: Camera| #[trigger] wanted(camera) == other_wanted(camera) by {
            lemma_listed(requested@, camera);
            lemma_listed(other_requested@, camera);
        }
        assert(wanted =~= other_wanted);
    }
}

proof fn lemma_listed(texts: Seq<String>, camera: Camera)
    ensures
        (exists|k: int|
            0 <= k < texts.len() && (#[trigger] texts[k]@ == camera.id@ || texts[k]@
                == camera.name@)) <==> lists(texts, camera.id@) || lists(texts, camera.name@),
{
    if lists(texts, camera.id@) {
        let k = choose|k: int| 0 <= k < texts.len() && #[trigger] texts[k]@ == camera.id@;
        assert(texts[k]@ == camera.id@ || texts[k]@ == camera.name@);
    }
    if lists(texts, camera.name@) {
        let k = choose|k: int| 0 <= k < texts.len() && #[trigger] texts[k]@ == camera.name@;
        assert(texts[k]@ == camera.id@ || texts[k]@ == camera.name@);
    }
}

/// Selection goes camera by camera: what is selected of two lists together is what is selected of the
/// first and what is selected of the second.
pub proof fn selection_goes_camera_by_camera(
    cameras: Vec<Camera>,
    more: Vec<Camera>,
    all: Vec<Camera>,
    requested: &[String],
    result: Result<Vec<Camera>, ArchiveError>,
    of_more: Result<Vec<Camera>, ArchiveError>,
    of_all: Result<Vec<Camera>, ArchiveError>,
)
    requires
        call_ensures(selected_cameras, (cameras, requested), result),
        call_ensures(selected_cameras, (more, requested), of_more),
        call_ensures(selected_cameras, (all, requested), of_all),
        all@ == cameras@ + more@,
    ensures
        result is Ok && of_more is Ok ==> of_all is Ok && of_all->Ok_0@ == result->Ok_0@
            + of_more->Ok_0@,
        result is Ok && of_more is Err ==> of_all is Ok && of_all->Ok_0@ == result->Ok_0@,
        result is Err && of_more is Ok && of_more->Ok_0@.len() > 0 ==> of_all is Ok
            && of_all->Ok_0@ == of_more->Ok_0@,
        result is Err && of_more is Err ==> of_all is Err,
{
    if requested@.len() > 0 {
        let asked = |camera: Camera| crate::archiver::requested_camera(camera, requested@);
        Seq::filter_distributes_over_add(cameras@, more@, asked);
        let first = cameras@.filter(asked);
        let second = more@.filter(asked);
        if first.len() == 0 {
            assert(first + second =~= second);
        }
        if second.len() == 0 {
            assert(first + second =~= first);
        }
    }
}

/// The cameras of the options are asked for, and those of the configuration only if the options name
/// none.
pub proof fn the_options_name_the_cameras_first(
    config: &Config,
    options: &ArchiveOptions,
    result: &[String],
)
    requires
        call_ensures(camera_filters, (config, options), result),
    ensures
        options.camera_filters@.len() > 0 ==> result@ == options.camera_filters@,
        options.camera_filters@.len() == 0 ==> result@ == config.camera_ids@,
{
}

/// A lookback ends `minimum_age_seconds` before the second `now` and begins `lookback_seconds` before
/// that, or at the first instant there is. There is none exactly if it would end outside the years
/// -9999 to 9999, or its length is no signed 64-bit number of milliseconds.
pub proof fn a_lookback_reaches_back_from_its_minimum_age(
    config: &Config,
    now: i64,
    result: Option<ArchiveRange>,
)
    requires
        call_ensures(lookback_range_at, (config, now), result),
    ensures
        ({
            let end = now - config.minimum_age_seconds;
            let start_ms = (end - config.lookback_seconds) * 1000;
            &&& result is Some <==> -377_705_116_800 <= end <= 253_402_300_799
                && config.lookback_seconds * 1000 <= i64::MAX
            &&& result is Some ==> result->0.end_ms == end * 1000 && result->0.start_ms == (
            if start_ms < i64::MIN {
                i64::MIN as int
            } else {
                start_ms
            })
        }),
{
}

/// A requested range is the range of the pass, whatever the configuration and the clock say; without
/// one, the range is the lookback from what the clock shows.
pub proof fn a_requested_range_comes_first(
    config: &Config,
    options: &ArchiveOptions,
    now: i64,
    at: Option<ArchiveRange>,
    lookback: Option<ArchiveRange>,
    result: Option<ArchiveRange>,
)
    requires
        call_ensures(archive_range_at, (config, options, now), at),
        call_ensures(lookback_range_at, (config, now), lookback),
        call_ensures(archive_range, (config, options), result),
    ensures
        options.range is Some ==> at == options.range && result == options.range,
        options.range is None ==> at == lookback,
{
}

/// Whatever the clock shows, a lookback ends on a full second that is at least the minimum age away
/// from the last second that a clock can show, and is as long as the configuration says.
pub proof fn a_default_range_has_the_configured_length(
    config: &Config,
    result: Option<ArchiveRange>,
)
    requires
        call_ensures(default_archive_range, (config,), result),
        result is Some,
    ensures
        result->0.end_ms % 1000 == 0,
        result->0.end_ms + config.minimum_age_seconds * 1000 <= 253_402_300_799_000,
        result->0.start_ms == result->0.end_ms - config.lookback_seconds * 1000
            || result->0.start_ms == i64::MIN && result->0.end_ms - config.lookback_seconds * 1000
            < i64::MIN,
{
}

/// The next segment of a range ends after the length of a segment or with the range, whichever comes
/// first; a second or less is no segment. There is no answer only where the length of a segment, or
/// an instant of it, is no 64-bit number.
pub proof fn a_segment_ends_after_its_length_or_with_the_range(
    start_ms: i64,
    range_end_ms: i64,
    segment_seconds: u64,
    result: NextSegment,
)
    requires
        call_ensures(next_segment, (start_ms, range_end_ms, segment_seconds), result),
        segment_seconds * 1000 <= i64::MAX,
        start_ms + 1000 <= i64::MAX,
    ensures
        result is Exhausted <==> range_end_ms - start_ms <= 1000,
        result is Overflow <==> range_end_ms - start_ms > 1000 && start_ms + segment_seconds * 1000
            > i64::MAX,
        result is Until ==> result->Until_0 <= range_end_ms && result->Until_0 <= start_ms
            + segment_seconds * 1000 && (result->Until_0 == range_end_ms || result->Until_0
            == start_ms + segment_seconds * 1000),
{
}

/// The timestamp of a file name is the RFC 3339 text of the second of the timestamp, rounded towards
/// the epoch, with hyphens for colons. There is one exactly for the years 0 to 9999.
pub proof fn a_file_timestamp_is_that_of_its_second(
    timestamp_ms: i64,
    seconds: i64,
    result: Result<String, ArchiveError>,
)
    requires
        call_ensures(file_timestamp, (timestamp_ms,), result),
        timestamp_ms >= 0 ==> seconds * 1000 <= timestamp_ms < seconds * 1000 + 1000,
        timestamp_ms < 0 ==> seconds * 1000 - 1000 < timestamp_ms <= seconds * 1000,
    ensures
        result is Ok <==> -62_167_219_200 <= seconds <= 253_402_300_799,
        result is Ok ==> {
            let written = result->Ok_0@;
            let text = rfc3339_utc(seconds);
            &&& written.len() == text.len()
            &&& forall|i: int|
                0 <= i < written.len() ==> #[trigger] written[i] == (if text[i] == ':' || text[i]
                    == '.' {
                    '-'
                } else {
                    text[i]
                })
        },
        result is Err ==> result->Err_0 == (if -377_705_116_800 <= seconds <= 253_402_300_799 {
            ArchiveError::FormatTimestamp { timestamp_ms }
        } else {
            ArchiveError::ConvertTimestamp { timestamp_ms }
        }),
{
    reveal_strlit(":.");
    if -62_167_219_200 <= seconds <= 253_402_300_799 {
        assert(crate::timestamp::whole_seconds(timestamp_ms as int) == seconds);
        let written = result->Ok_0@;
        let text = rfc3339_utc(seconds);
        assert forall|i: int| 0 <= i < written.len() implies #[trigger] written[i] == (if text[i]
            == ':' || text[i] == '.' {
            '-'
        } else {
            text[i]
        }) by {
            assert(":."@[0] == ':' && ":."@[1] == '.');
            if ":."@.contains(text[i]) {
                let k = choose|k: int| 0 <= k < ":."@.len() && ":."@[k] == text[i];
                assert(k == 0 || k == 1);
            }
        }
    } else {
        assert(crate::timestamp::whole_seconds(timestamp_ms as int) == seconds);
    }
}

/// A file name is the name of the camera, with an underscore for each of `<>:"/\|?*`, and the
/// timestamps of both instants. There is one exactly if both instants have a timestamp.
pub proof fn a_file_name_holds_the_camera_and_both_instants(
    camera: &Camera,
    start_ms: i64,
    end_ms: i64,
    start: Result<String, ArchiveError>,
    end: Result<String, ArchiveError>,
    result: Result<String, ArchiveError>,
)
    requires
        call_ensures(archive_filename, (camera, start_ms, end_ms), result),
        call_ensures(file_timestamp, (start_ms,), start),
        call_ensures(file_timestamp, (end_ms,), end),
    ensures
        result is Ok <==> start is Ok && end is Ok,
        start is Err ==> result == start,
        start is Ok && end is Err ==> result == end,
        result is Ok ==> {
            let name = result->Ok_0@;
            let n = camera.name@.len() as int;
            &&& name.len() == n + 48
            &&& forall|i: int|
                0 <= i < n ==> #[trigger] name[i] == (if is_unsafe(camera.name@[i]) {
                    '_'
                } else {
                    camera.name@[i]
                })
            &&& name.skip(n) == seq![' '] + start->Ok_0@ + seq![' ', '-', ' '] + end->Ok_0@ + seq![
                '.',
                'm',
                'p',
                '4',
            ]
        },
{
    reveal_strlit(" ");
    reveal_strlit(" - ");
    reveal_strlit(".mp4");
    assert(" "@ =~= seq![' ']);
    assert(" - "@ =~= seq![' ', '-', ' ']);
    assert(".mp4"@ =~= seq!['.', 'm', 'p', '4']);
    if result is Ok {
        let name = result->Ok_0@;
        let n = camera.name@.len() as int;
        assert forall|i: int| 0 <= i < n implies #[trigger] name[i] == (if is_unsafe(
            camera.name@[i],
        ) {
            '_'
        } else {
            camera.name@[i]
        }) by {
            lemma_unsafe(camera.name@[i]);
        }
        assert(name.skip(n) =~= seq![' '] + start->Ok_0@ + seq![' ', '-', ' '] + end->Ok_0@ + seq![
            '.',
            'm',
            'p',
            '4',
        ]);
    }
}

/// Whether a character must not stand in a file name.
pub open spec fn is_unsafe(c: char) -> bool {
    c == '<' || c == '>' || c == ':' || c == '"' || c == '/' || c == '\\' || c == '|' || c == '?'
        || c == '*'
}

proof fn lemma_unsafe(c: char)
    ensures
        crate::archiver::unsafe_chars().contains(c) <==> is_unsafe(c),
{
    reveal_strlit("<>:\"/\\|?*");
    let all = crate::archiver::unsafe_chars();
    assert(all =~= seq!['<', '>', ':', '"', '/', '\\', '|', '?', '*']);
    assert(all[0] == '<' && all[1] == '>' && all[2] == ':' && all[3] == '"' && all[4] == '/'
        && all[5] == '\\' && all[6] == '|' && all[7] == '?' && all[8] == '*');
    if all.contains(c) {
        let k = choose|k: int| 0 <= k < all.len() && all[k] == c;
        assert(0 <= k < 9);
    }
}

/// The request for the footage of a camera says which camera, from when to when, under which file
/// name, and where to.
pub proof fn a_request_asks_for_the_footage_of_its_camera(
    config: &Config,
    camera: &Camera,
    start_ms: i64,
    end_ms: i64,
    name: Result<String, ArchiveError>,
    result: Result<ArchiveVideoRequest, ArchiveError>,
)
    requires
        call_ensures(archive_request, (config, camera, start_ms, end_ms), result),
        call_ensures(archive_filename, (camera, start_ms, end_ms), name),
    ensures
        result is Ok <==> name is Ok,
        result is Err ==> name is Err && result->Err_0 == name->Err_0,
        result is Ok ==> {
            let request = result->Ok_0;
            &&& request.camera_id@ == camera.id@
            &&& request.start == start_ms
            &&& request.end == end_ms
            &&& request.filename@ == name->Ok_0@
            &&& request.destination@ == config.archive_destination@
            &&& request.host@ == config.archive_host@
            &&& request.shared_drive@ == config.archive_shared_drive@
            &&& request.archive_type@ == "rotating"@
            &&& request.lens == 0
            &&& request.channel == 0
            &&& request.fps is None
        },
{
}

/// An action says what was ordered: the same camera, the same instants, the same archive, the same
/// counts, the same error. An archive request names the destination that is configured.
pub proof fn an_action_says_what_was_ordered(action: PassAction, order: PassOrder, config: &Config)
    requires
        carries_out(action, order, config),
    ensures
        order is ListCameras <==> action is ListCameras,
        order is Submit <==> action is Submit,
        order is AwaitPending <==> action is AwaitPending,
        order is Delete <==> action is Delete,
        order is Finish <==> action is Finish,
        order is Fail <==> action is Fail,
        order is Submit ==> {
            let request = action->Submit_0;
            &&& request.camera_id@ == order->Submit_camera.id@
            &&& request.start == order->Submit_start_ms
            &&& request.end == order->Submit_end_ms
            &&& request.filename@ == order->Submit_filename
            &&& request.destination@ == config.archive_destination@
            &&& request.host@ == config.archive_host@
            &&& request.shared_drive@ == config.archive_shared_drive@
            &&& request.archive_type@ == "rotating"@
            &&& request.lens == 0 && request.channel == 0 && request.fps is None
        },
        order is AwaitPending ==> action->AwaitPending_file_id == order->AwaitPending_file_id
            && action->AwaitPending_seconds == order->AwaitPending_seconds,
        order is Delete ==> action->Delete_camera_id@ == order->Delete_camera.id@
            && action->Delete_start_ms == order->Delete_start_ms && action->Delete_end_ms
            == order->Delete_end_ms,
        order is Finish ==> action->Finish_0.camera_count == order->Finish_camera_count
            && action->Finish_0.archive_count == order->Finish_archive_count
            && action->Finish_0.delete_count == order->Finish_delete_count,
        order is Fail ==> action->Fail_0 == order->Fail_error,
{
}

/// A pass starts exactly if its configuration and options are accepted, and is refused for the same
/// reason. It then wants the cameras, has done nothing, and keeps the configuration and the options
/// as they are.
pub proof fn a_pass_starts_exactly_if_it_is_accepted(
    config: &Config,
    options: ArchiveOptions,
    validated: Result<(), ArchiveError>,
    result: Result<(ArchivePass<'_>, PassAction), ArchiveError>,
)
    requires
        call_ensures(validate_config, (config, &options), validated),
        call_ensures(run_once_with_options, (config, options), result),
    ensures
        result is Ok <==> validated is Ok,
        result is Err ==> result->Err_0 == validated->Err_0,
        result is Ok ==> {
            let (pass, action) = result->Ok_0;
            &&& action is ListCameras
            &&& pass@.config == config
            &&& pass@.options == options
            &&& pass@.archive_count == 0
            &&& pass@.delete_count == 0
            &&& pass@.stage is Selecting
        },
{
}

/// The line of a camera holds its id, its name, and whether it is connected and recording.
pub proof fn a_camera_is_printed_with_what_is_known_of_it(camera: &Camera, result: String)
    requires
        call_ensures(camera_line, (camera,), result),
    ensures
        result@ == camera.id@ + "\t"@ + camera.name@ + "\tconnected="@ + (match camera.is_connected {
            None => "unknown"@,
            Some(flag) => if flag {
                "true"@
            } else {
                "false"@
            },
        }) + "\trecording="@ + (match camera.is_recording {
            None => "unknown"@,
            Some(flag) => if flag {
                "true"@
            } else {
                "false"@
            },
        }),
{
}

/// A timestamp is the second of its instant in milliseconds, and the milliseconds within it; an
/// error names the option and the reason.
pub proof fn a_timestamp_is_its_instant_in_milliseconds(
    value: &str,
    label: &str,
    result: Result<i64, CliError>,
)
    requires
        call_ensures(parse_timestamp_ms, (value, label), result),
    ensures
        match rfc3339_instant(value@) {
            Ok(instant) => result is Ok && result->Ok_0 == instant.0 * 1000 + instant.1,
            Err(reason) => {
                &&& result is Err && result->Err_0 is InvalidTimestamp
                &&& result->Err_0->label@ == label@
                &&& result->Err_0->reason@ == reason
            },
        },
{
}

/// A range is read exactly if both of its ends are given and are timestamps, or neither is given; it
/// runs from the one to the other.
pub proof fn a_range_runs_from_its_start_to_its_end(
    start: String,
    end: String,
    start_text: &str,
    end_text: &str,
    first: Result<i64, CliError>,
    last: Result<i64, CliError>,
    both: Result<Option<ArchiveRange>, CliError>,
    only_start: Result<Option<ArchiveRange>, CliError>,
    only_end: Result<Option<ArchiveRange>, CliError>,
    neither: Result<Option<ArchiveRange>, CliError>,
)
    requires
        start_text@ == start@,
        end_text@ == end@,
        call_ensures(parse_timestamp_ms, (start_text, "start"), first),
        call_ensures(parse_timestamp_ms, (end_text, "end"), last),
        call_ensures(parse_range, (Some(start), Some(end)), both),
        call_ensures(parse_range, (Some(start), None), only_start),
        call_ensures(parse_range, (None, Some(end)), only_end),
        call_ensures(parse_range, (None, None), neither),
    ensures
        both is Ok <==> first is Ok && last is Ok,
        both is Ok ==> both->Ok_0 is Some && both->Ok_0->0.start_ms == first->Ok_0
            && both->Ok_0->0.end_ms == last->Ok_0,
        both is Err ==> both->Err_0.message() == (if first is Err {
            first->Err_0.message()
        } else {
            last->Err_0.message()
        }),
        only_start is Err && only_start->Err_0 is OneBound,
        only_end is Err && only_end->Err_0 is OneBound,
        neither is Ok && neither->Ok_0 is None,
{
}

/// By default, and in the sample, archives go to a NAS in segments of a quarter of an hour; a pass
/// looks back an hour from two minutes ago, waits for its archives and deletes nothing; and only the
/// sample accepts any certificate.
pub proof fn the_defaults_archive_the_last_hour(sample: Config)
    requires
        call_ensures(Config::sample, (), sample),
    ensures
        sample.controller@ == "https://unifi-console.example.invalid"@,
        sample.auth_method == AuthMethod::Auto,
        sample.api_key_env@ == "UNIFI_PROTECT_API_KEY"@,
        sample.username_env@ == "UNIFI_PROTECT_USERNAME"@,
        sample.password_env@ == "UNIFI_PROTECT_PASSWORD"@,
        sample.archive_destination@ == "NAS"@,
        sample.archive_host@ == "nas.example.invalid"@,
        sample.archive_shared_drive@ == "ProtectArchive"@,
        sample.camera_ids@.len() == 0,
        sample.segment_seconds == 15 * 60,
        sample.lookback_seconds == 60 * 60,
        sample.minimum_age_seconds == 2 * 60,
        sample.poll_seconds == 5 * 60,
        sample.archive_status_poll_seconds == 15,
        sample.wait_for_archive_completion,
        !sample.delete_after_archive,
        sample.delete_after_archive_confirmation@.len() == 0,
        !sample.verify_tls,
{
}

} // verus!
