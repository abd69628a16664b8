//! What an archive pass can fail with.

use crate::timestamp::{
    format_unix_seconds, whole_seconds, FIRST_SECOND, FIRST_WRITABLE_SECOND, LAST_SECOND,
};
use vstd::prelude::*;
use vstd::string::*;

verus! {

/// The text that confirms deletion in a configuration.
pub const DELETE_CONFIRMATION: &'static str = "DELETE_PROTECT_FOOTAGE_AFTER_ARCHIVE";

/// Why an archive pass was refused or stopped.
#[derive(Debug, Clone)]
pub enum ArchiveError {
    /// The segment length is zero.
    ZeroSegment,
    /// No archive destination is configured.
    MissingDestination,
    /// A NAS archive has no host.
    MissingHost,
    /// A NAS archive has no shared drive.
    MissingSharedDrive,
    /// The requested range does not start before it ends.
    ReversedRange,
    /// Deletion is on, but the pass would not wait for its archives.
    DeleteWithoutWait,
    /// Deletion is on, but nobody confirmed it.
    DeleteUnconfirmed,
    /// Cameras were asked for, and none of those found is among them.
    NoCameraMatched,
    /// The lookback reaches beyond the dates, or is too long.
    LookbackOutOfRange,
    /// A timestamp is no date.
    ConvertTimestamp { timestamp_ms: i64 },
    /// The date of a timestamp cannot be written down.
    FormatTimestamp { timestamp_ms: i64 },
    /// Footage is to be deleted, and its archive cannot be tracked.
    MissingFileId,
    /// The console reported that an archive failed.
    ArchiveFailed { file_id: String },
    /// The console reported that an archive was canceled.
    ArchiveCanceled { file_id: String },
    /// The footage of an archive could not be deleted.
    DeleteFailed { camera_name: String, reason: String },
    /// A request to the console failed.
    RequestFailed { message: String },
    /// A number left the range of its type.
    Overflow,
}

impl ArchiveError {
    /// The text shown for the error.
    pub open spec fn message(&self) -> Seq<char> {
        match self {
            ArchiveError::ZeroSegment => "segment_seconds must be greater than zero"@,
            ArchiveError::MissingDestination => "archive_destination must be set"@,
            ArchiveError::MissingHost => "archive_host must be set for NAS/UniFi Drive archives"@,
            ArchiveError::MissingSharedDrive =>
                "archive_shared_drive must be set for NAS/UniFi Drive archives"@,
            ArchiveError::ReversedRange => "archive range start must be before end"@,
            ArchiveError::DeleteWithoutWait =>
                "delete_after_archive requires wait_for_archive_completion = true"@,
            ArchiveError::DeleteUnconfirmed =>
                "delete_after_archive is destructive; pass --i-understand-this-deletes-protect-footage for run-once or set delete_after_archive_confirmation = \""@
                    + DELETE_CONFIRMATION@ + "\" in local config"@,
            ArchiveError::NoCameraMatched =>
                "none of the configured camera_ids matched Protect camera ids or names"@,
            ArchiveError::LookbackOutOfRange => "the lookback is no range of dates"@,
            ArchiveError::ConvertTimestamp { .. } => "failed to convert timestamp"@,
            ArchiveError::FormatTimestamp { .. } => "failed to format timestamp"@,
            ArchiveError::MissingFileId =>
                "Protect archive response did not include a fileId; refusing to delete footage"@,
            ArchiveError::ArchiveFailed { file_id } =>
                "archive task "@ + file_id@ + " failed"@,
            ArchiveError::ArchiveCanceled { file_id } =>
                "archive task "@ + file_id@ + " was canceled"@,
            ArchiveError::DeleteFailed { camera_name, .. } =>
                "failed to delete archived footage for "@ + camera_name@,
            ArchiveError::RequestFailed { message } => message@,
            ArchiveError::Overflow => "archive arithmetic overflowed"@,
        }
    }

    /// The text shown for the error.
    pub fn to_string(&self) -> (result: String)
        ensures
            result@ == self.message(),
    {
        match self {
            ArchiveError::ZeroSegment => "segment_seconds must be greater than zero".to_owned(),
            ArchiveError::MissingDestination => "archive_destination must be set".to_owned(),
            ArchiveError::MissingHost =>
                "archive_host must be set for NAS/UniFi Drive archives".to_owned(),
            ArchiveError::MissingSharedDrive =>
                "archive_shared_drive must be set for NAS/UniFi Drive archives".to_owned(),
            ArchiveError::ReversedRange => "archive range start must be before end".to_owned(),
            ArchiveError::DeleteWithoutWait =>
                "delete_after_archive requires wait_for_archive_completion = true".to_owned(),
            ArchiveError::DeleteUnconfirmed =>
                "delete_after_archive is destructive; pass --i-understand-this-deletes-protect-footage for run-once or set delete_after_archive_confirmation = \"".to_owned()
                    .concat(DELETE_CONFIRMATION).concat("\" in local config"),
            ArchiveError::NoCameraMatched =>
                "none of the configured camera_ids matched Protect camera ids or names".to_owned(),
            ArchiveError::LookbackOutOfRange => "the lookback is no range of dates".to_owned(),
            ArchiveError::ConvertTimestamp { .. } => "failed to convert timestamp".to_owned(),
            ArchiveError::FormatTimestamp { .. } => "failed to format timestamp".to_owned(),
            ArchiveError::MissingFileId =>
                "Protect archive response did not include a fileId; refusing to delete footage".to_owned(),
            ArchiveError::ArchiveFailed { file_id } =>
                "archive task ".to_owned().concat(file_id.as_str()).concat(" failed"),
            ArchiveError::ArchiveCanceled { file_id } =>
                "archive task ".to_owned().concat(file_id.as_str()).concat(" was canceled"),
            ArchiveError::DeleteFailed { camera_name, .. } =>
                "failed to delete archived footage for ".to_owned().concat(camera_name.as_str()),
            ArchiveError::RequestFailed { message } => message.clone(),
            ArchiveError::Overflow => "archive arithmetic overflowed".to_owned(),
        }
    }

    /// Why a timestamp has no text: it is no date, or its date cannot be written down.
    pub open spec fn timestamp_cause(timestamp_ms: i64) -> Option<Seq<char>> {
        let seconds = whole_seconds(timestamp_ms as int);
        if !(FIRST_SECOND <= seconds <= LAST_SECOND) {
            Some("timestamp was not in range"@)
        } else if seconds < FIRST_WRITABLE_SECOND {
            Some("The year component cannot be formatted into the requested format."@)
        } else {
            None
        }
    }

    /// The text of what caused the error, where something else did.
    pub open spec fn cause_text(&self) -> Option<Seq<char>> {
        match self {
            ArchiveError::ConvertTimestamp { timestamp_ms }
            | ArchiveError::FormatTimestamp { timestamp_ms } => Self::timestamp_cause(
                *timestamp_ms,
            ),
            ArchiveError::DeleteFailed { reason, .. } => Some(reason@),
            _ => None,
        }
    }

    /// The text of what caused the error, where something else did.
    pub fn cause(&self) -> (result: Option<String>)
        ensures
            match self.cause_text() {
                Some(text) => result matches Some(told) && told@ == text,
                None => result is None,
            },
    {
        match self {
            ArchiveError::ConvertTimestamp { timestamp_ms }
            | ArchiveError::FormatTimestamp { timestamp_ms } => match format_unix_seconds(
                *timestamp_ms / 1000,
            ) {
                Err(reason) => Some(reason),
                Ok(Err(reason)) => Some(reason),
                Ok(Ok(_)) => None,
            },
            ArchiveError::DeleteFailed { reason, .. } => Some(reason.clone()),
            _ => None,
        }
    }
}

} // verus!
