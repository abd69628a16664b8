//! What the console is asked for and what it answers with.

use crate::json::{json_string, member_views, object_text, quote, write_object};
use crate::text::{decimal, signed_text, unsigned_text};
use vstd::prelude::*;
use vstd::string::*;

verus! {

/// A camera of the console.
#[derive(Debug, Clone)]
pub struct Camera {
    pub id: String,
    pub name: String,
    pub is_connected: Option<bool>,
    pub is_recording: Option<bool>,
}

/// The answer to an archive request.
#[derive(Debug, Clone)]
pub struct ArchiveTask {
    /// Identifies the archive among the pending ones.
    pub file_id: Option<String>,
    pub filename: Option<String>,
}

/// A request to archive the footage of one camera between two instants.
#[derive(Debug, Clone)]
pub struct ArchiveVideoRequest {
    /// First millisecond, since the Unix epoch.
    pub start: i64,
    /// End in milliseconds, since the Unix epoch.
    pub end: i64,
    pub filename: String,
    pub lens: u8,
    pub destination: String,
    pub camera_id: String,
    pub archive_type: String,
    pub channel: u8,
    pub fps: Option<u64>,
    pub host: String,
    pub shared_drive: String,
}

/// An archive that the console has not finished.
#[derive(Debug, Clone)]
pub struct PendingArchive {
    pub id: String,
    pub status: Option<String>,
    pub filename: Option<String>,
}

/// Which events to list.
#[derive(Debug, Clone)]
pub struct EventQuery {
    pub start_ms: i64,
    pub end_ms: i64,
    pub camera_ids: Vec<String>,
    pub event_types: Vec<String>,
    pub smart_detect_types: Vec<String>,
    pub limit: usize,
    pub offset: usize,
}

/// An event that the console recorded.
#[derive(Debug, Clone)]
pub struct ProtectEvent {
    pub camera_id: String,
    pub start: i64,
    pub end: Option<i64>,
    pub event_type: Option<String>,
    pub smart_detect_types: Vec<String>,
}

impl ArchiveVideoRequest {
    /// The members of the JSON object that asks for the archive, under the names that the console
    /// gives them. A frame rate stands there only where one is set.
    pub open spec fn json_members(&self) -> Seq<(Seq<char>, Seq<char>)> {
        seq![
            ("start"@, decimal(self.start as int)),
            ("end"@, decimal(self.end as int)),
            ("filename"@, json_string(self.filename@)),
            ("lens"@, decimal(self.lens as int)),
            ("destination"@, json_string(self.destination@)),
            ("cameraId"@, json_string(self.camera_id@)),
            ("type"@, json_string(self.archive_type@)),
            ("channel"@, decimal(self.channel as int)),
        ] + (match self.fps {
            Some(fps) => seq![("fps"@, decimal(fps as int))],
            None => seq![],
        }) + seq![
            ("host"@, json_string(self.host@)),
            ("sharedDrive"@, json_string(self.shared_drive@)),
        ]
    }

    /// The JSON object that asks for the archive.
    pub fn to_json(&self) -> (result: String)
        ensures
            result@ == object_text(self.json_members()),
    {
        let mut members: Vec<(String, String)> = Vec::new();
        members.push(("start".to_owned(), signed_text(self.start)));
        members.push(("end".to_owned(), signed_text(self.end)));
        members.push(("filename".to_owned(), quote(self.filename.as_str())));
        members.push(("lens".to_owned(), unsigned_text(self.lens as u64)));
        members.push(("destination".to_owned(), quote(self.destination.as_str())));
        members.push(("cameraId".to_owned(), quote(self.camera_id.as_str())));
        members.push(("type".to_owned(), quote(self.archive_type.as_str())));
        members.push(("channel".to_owned(), unsigned_text(self.channel as u64)));
        if let Some(fps) = self.fps {
            members.push(("fps".to_owned(), unsigned_text(fps)));
        }
        members.push(("host".to_owned(), quote(self.host.as_str())));
        members.push(("sharedDrive".to_owned(), quote(self.shared_drive.as_str())));
        assert(member_views(members@) =~= self.json_members());
        write_object(&members)
    }
}

} // verus!
