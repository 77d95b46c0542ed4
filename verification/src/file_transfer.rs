//! What file transfer and discovery report, and how a report reads in the log.
use crate::protocol::objects::FileTransferGroup;
use crate::text::{decimal, push_decimal};
use vstd::prelude::*;

verus! {

#[derive(Debug, Clone, PartialEq, Eq)]
pub enum FileTransferEvent {
    /// Files that were copied on the other side are ready to be pasted here.
    IncomingClipboardReady { paths: Vec<String> },
    OutgoingGroupStarted { group_id: u64, file_count: u32, total_size_bytes: u64 },
    OutgoingStarted {
        transfer_id: u64,
        file_object_id: u64,
        group: Option<FileTransferGroup>,
        name: String,
        size_bytes: u64,
        total_chunks: u32,
    },
    OutgoingProgress {
        transfer_id: u64,
        file_object_id: u64,
        sent_chunks: u32,
        total_chunks: u32,
        sent_bytes: u64,
        total_size: u64,
    },
    OutgoingCompleted { transfer_id: u64, file_object_id: u64, group: Option<FileTransferGroup> },
    OutgoingGroupCompleted { group_id: u64, file_count: u32, total_size_bytes: u64 },
    OutgoingCancelled { transfer_id: u64, file_object_id: u64, group: Option<FileTransferGroup> },
    OutgoingGroupCancelled { group_id: u64 },
    IncomingStarted {
        transfer_id: u64,
        file_object_id: u64,
        group: Option<FileTransferGroup>,
        name: String,
        size_bytes: u64,
        path: String,
    },
    IncomingProgress {
        transfer_id: u64,
        file_object_id: u64,
        received_chunks: u32,
        total_chunks: u32,
        received_bytes: u64,
        total_size: u64,
    },
    IncomingCompleted {
        transfer_id: u64,
        file_object_id: u64,
        group: Option<FileTransferGroup>,
        path: String,
        size_bytes: u64,
    },
    IncomingGroupCompleted { group_id: u64, paths: Vec<String>, total_size_bytes: u64 },
    IncomingCancelled {
        transfer_id: u64,
        file_object_id: u64,
        group: Option<FileTransferGroup>,
        path: String,
    },
    IncomingGroupCancelled { group_id: u64 },
    Error { transfer_id: Option<u64>, message: String },
}

/// A number that may be missing, as it reads in the log.
pub open spec fn optional_text(n: Option<u64>) -> Seq<char> {
    match n {
        Some(n) => "Some("@ + decimal(n as nat) + ")"@,
        None => "None"@,
    }
}

fn push_optional(out: &mut String, n: Option<u64>)
    ensures
        final(out)@ == old(out)@ + optional_text(n),
{
    match n {
        Some(n) => {
            out.append("Some(");
            push_decimal(out, n);
            out.append(")");
        },
        None => {
            out.append("None");
        },
    }
    proof {
        assert(out@ =~= old(out)@ + optional_text(n));
    }
}

/// A line of the log; errors go where errors go.
#[derive(Debug, PartialEq, Eq)]
pub struct LogLine {
    pub text: String,
    pub error: bool,
}

impl FileTransferEvent {
    /// What a report reads like behind the name of who it is about, if it is told at all.
    pub open spec fn report(self) -> Option<Seq<char>> {
        match self {
            FileTransferEvent::IncomingClipboardReady { .. } => None,
            FileTransferEvent::OutgoingGroupStarted {
                group_id,
                file_count,
                total_size_bytes,
            } => Some(
                "outgoing group #"@
                    + decimal(group_id as nat)
                    + " started: "@
                    + decimal(file_count as nat)
                    + " files, "@
                    + decimal(total_size_bytes as nat)
                    + " bytes"@,
            ),
            FileTransferEvent::OutgoingStarted {
                transfer_id,
                name,
                size_bytes,
                total_chunks,
                ..
            } => Some(
                "outgoing #"@
                    + decimal(transfer_id as nat)
                    + " started: "@
                    + name@
                    + " ("@
                    + decimal(size_bytes as nat)
                    + " bytes, "@
                    + decimal(total_chunks as nat)
                    + " chunks)"@,
            ),
            FileTransferEvent::OutgoingProgress {
                transfer_id,
                sent_chunks,
                total_chunks,
                sent_bytes,
                total_size,
                ..
            } => Some(
                "outgoing #"@
                    + decimal(transfer_id as nat)
                    + ": "@
                    + decimal(sent_chunks as nat)
                    + "/"@
                    + decimal(total_chunks as nat)
                    + " chunks, "@
                    + decimal(sent_bytes as nat)
                    + "/"@
                    + decimal(total_size as nat)
                    + " bytes"@,
            ),
            FileTransferEvent::OutgoingCompleted { transfer_id, .. } => Some(
                "outgoing #"@
                    + decimal(transfer_id as nat)
                    + " completed"@,
            ),
            FileTransferEvent::OutgoingCancelled { transfer_id, .. } => Some(
                "outgoing #"@
                    + decimal(transfer_id as nat)
                    + " cancelled"@,
            ),
            FileTransferEvent::OutgoingGroupCompleted {
                group_id,
                file_count,
                total_size_bytes,
            } => Some(
                "outgoing group #"@
                    + decimal(group_id as nat)
                    + " completed: "@
                    + decimal(file_count as nat)
                    + " files, "@
                    + decimal(total_size_bytes as nat)
                    + " bytes"@,
            ),
            FileTransferEvent::OutgoingGroupCancelled { group_id } => Some(
                "outgoing group #"@
                    + decimal(group_id as nat)
                    + " cancelled"@,
            ),
            FileTransferEvent::IncomingStarted { transfer_id, name, size_bytes, path, .. } => Some(
                "incoming #"@
                    + decimal(transfer_id as nat)
                    + " started: "@
                    + name@
                    + " ("@
                    + decimal(size_bytes as nat)
                    + " bytes) -> "@
                    + path@,
            ),
            FileTransferEvent::IncomingProgress {
                transfer_id,
                received_chunks,
                total_chunks,
                received_bytes,
                total_size,
                ..
            } => Some(
                "incoming #"@
                    + decimal(transfer_id as nat)
                    + ": "@
                    + decimal(received_chunks as nat)
                    + "/"@
                    + decimal(total_chunks as nat)
                    + " chunks, "@
                    + decimal(received_bytes as nat)
                    + "/"@
                    + decimal(total_size as nat)
                    + " bytes"@,
            ),
            FileTransferEvent::IncomingCompleted { transfer_id, path, size_bytes, .. } => Some(
                "incoming #"@
                    + decimal(transfer_id as nat)
                    + " completed: "@
                    + path@
                    + " ("@
                    + decimal(size_bytes as nat)
                    + " bytes)"@,
            ),
            FileTransferEvent::IncomingCancelled { transfer_id, path, .. } => Some(
                "incoming #"@
                    + decimal(transfer_id as nat)
                    + " cancelled and cleaned: "@
                    + path@,
            ),
            FileTransferEvent::IncomingGroupCompleted { group_id, paths, total_size_bytes } => Some(
                "incoming group #"@
                    + decimal(group_id as nat)
                    + " completed: "@
                    + decimal(paths@.len())
                    + " files, "@
                    + decimal(total_size_bytes as nat)
                    + " bytes"@,
            ),
            FileTransferEvent::IncomingGroupCancelled { group_id } => Some(
                "incoming group #"@
                    + decimal(group_id as nat)
                    + " cancelled"@,
            ),
            FileTransferEvent::Error { transfer_id, message } => Some(
                "error "@
                    + optional_text(transfer_id)
                    + ": "@
                    + message@,
            ),
        }
    }

    /// The line of the log for a report, under the name `label`. That files can be pasted is not
    /// told.
    pub fn log_line(&self, label: &str) -> (r: Option<LogLine>)
        ensures
            match r {
                Some(line) => {
                    &&& self.report() is Some
                    &&& line.text@ == label@ + " FileTx | "@ + self.report()->0
                    &&& line.error == (self is Error)
                },
                None => self.report() is None,
            },
    {
        let mut out = label.to_owned();
        out.append(" FileTx | ");
        let ghost head = out@;
        let mut error = false;
        match self {
            FileTransferEvent::IncomingClipboardReady { .. } => {
                return None;
            },
            FileTransferEvent::OutgoingGroupStarted { group_id, file_count, total_size_bytes } => {
                out.append("outgoing group #");
                push_decimal(&mut out, *group_id);
                out.append(" started: ");
                push_decimal(&mut out, *file_count as u64);
                out.append(" files, ");
                push_decimal(&mut out, *total_size_bytes);
                out.append(" bytes");
            },
            FileTransferEvent::OutgoingStarted {
                transfer_id,
                name,
                size_bytes,
                total_chunks,
                ..
            } => {
                out.append("outgoing #");
                push_decimal(&mut out, *transfer_id);
                out.append(" started: ");
                out.append(name.as_str());
                out.append(" (");
                push_decimal(&mut out, *size_bytes);
                out.append(" bytes, ");
                push_decimal(&mut out, *total_chunks as u64);
                out.append(" chunks)");
            },
            FileTransferEvent::OutgoingProgress {
                transfer_id,
                sent_chunks,
                total_chunks,
                sent_bytes,
                total_size,
                ..
            } => {
                out.append("outgoing #");
                push_decimal(&mut out, *transfer_id);
                out.append(": ");
                push_decimal(&mut out, *sent_chunks as u64);
                out.append("/");
                push_decimal(&mut out, *total_chunks as u64);
                out.append(" chunks, ");
                push_decimal(&mut out, *sent_bytes);
                out.append("/");
                push_decimal(&mut out, *total_size);
                out.append(" bytes");
            },
            FileTransferEvent::OutgoingCompleted { transfer_id, .. } => {
                out.append("outgoing #");
                push_decimal(&mut out, *transfer_id);
                out.append(" completed");
            },
            FileTransferEvent::OutgoingCancelled { transfer_id, .. } => {
                out.append("outgoing #");
                push_decimal(&mut out, *transfer_id);
                out.append(" cancelled");
            },
            FileTransferEvent::OutgoingGroupCompleted {
                group_id,
                file_count,
                total_size_bytes,
            } => {
                out.append("outgoing group #");
                push_decimal(&mut out, *group_id);
                out.append(" completed: ");
                push_decimal(&mut out, *file_count as u64);
                out.append(" files, ");
                push_decimal(&mut out, *total_size_bytes);
                out.append(" bytes");
            },
            FileTransferEvent::OutgoingGroupCancelled { group_id } => {
                out.append("outgoing group #");
                push_decimal(&mut out, *group_id);
                out.append(" cancelled");
            },
            FileTransferEvent::IncomingStarted { transfer_id, name, size_bytes, path, .. } => {
                out.append("incoming #");
                push_decimal(&mut out, *transfer_id);
                out.append(" started: ");
                out.append(name.as_str());
                out.append(" (");
                push_decimal(&mut out, *size_bytes);
                out.append(" bytes) -> ");
                out.append(path.as_str());
            },
            FileTransferEvent::IncomingProgress {
                transfer_id,
                received_chunks,
                total_chunks,
                received_bytes,
                total_size,
                ..
            } => {
                out.append("incoming #");
                push_decimal(&mut out, *transfer_id);
                out.append(": ");
                push_decimal(&mut out, *received_chunks as u64);
                out.append("/");
                push_decimal(&mut out, *total_chunks as u64);
                out.append(" chunks, ");
                push_decimal(&mut out, *received_bytes);
                out.append("/");
                push_decimal(&mut out, *total_size);
                out.append(" bytes");
            },
            FileTransferEvent::IncomingCompleted { transfer_id, path, size_bytes, .. } => {
                out.append("incoming #");
                push_decimal(&mut out, *transfer_id);
                out.append(" completed: ");
                out.append(path.as_str());
                out.append(" (");
                push_decimal(&mut out, *size_bytes);
                out.append(" bytes)");
            },
            FileTransferEvent::IncomingCancelled { transfer_id, path, .. } => {
                out.append("incoming #");
                push_decimal(&mut out, *transfer_id);
                out.append(" cancelled and cleaned: ");
                out.append(path.as_str());
            },
            FileTransferEvent::IncomingGroupCompleted { group_id, paths, total_size_bytes } => {
                out.append("incoming group #");
                push_decimal(&mut out, *group_id);
                out.append(" completed: ");
                push_decimal(&mut out, paths.len() as u64);
                out.append(" files, ");
                push_decimal(&mut out, *total_size_bytes);
                out.append(" bytes");
            },
            FileTransferEvent::IncomingGroupCancelled { group_id } => {
                out.append("incoming group #");
                push_decimal(&mut out, *group_id);
                out.append(" cancelled");
            },
            FileTransferEvent::Error { transfer_id, message } => {
                out.append("error ");
                push_optional(&mut out, *transfer_id);
                out.append(": ");
                out.append(message.as_str());
                error = true;
            },
        }
        proof {
            assert(out@ =~= head + self.report()->0);
        }
        Some(LogLine { text: out, error })
    }
}

/// What is heard of other devices.
#[derive(Debug, Clone, PartialEq, Eq)]
pub enum DiscoveryEvent {
    PeerSeen { display_name: String, endpoint: String, device_id: String },
    PeerExpired { display_name: String, device_id: String },
    Snapshot { count: usize },
    Error(String),
}

impl DiscoveryEvent {
    /// What an event reads like behind the name of who it is about.
    pub open spec fn report(self) -> Seq<char> {
        match self {
            DiscoveryEvent::PeerSeen { display_name, endpoint, device_id } => "peer "@
                + display_name@ + " at "@ + endpoint@ + " ("@ + device_id@ + ")"@,
            DiscoveryEvent::PeerExpired { display_name, device_id } => "peer expired "@
                + display_name@ + " ("@ + device_id@ + ")"@,
            DiscoveryEvent::Snapshot { count } => decimal(count as nat) + " peer(s)"@,
            DiscoveryEvent::Error(message) => message@,
        }
    }

    /// The line of the log for an event, under the name `label`.
    pub fn log_line(&self, label: &str) -> (r: LogLine)
        ensures
            r.text@ == label@ + " Discovery | "@ + self.report(),
            r.error == (self is Error),
    {
        let mut out = label.to_owned();
        out.append(" Discovery | ");
        let ghost head = out@;
        let mut error = false;
        match self {
            DiscoveryEvent::PeerSeen { display_name, endpoint, device_id } => {
                out.append("peer ");
                out.append(display_name.as_str());
                out.append(" at ");
                out.append(endpoint.as_str());
                out.append(" (");
                out.append(device_id.as_str());
                out.append(")");
            },
            DiscoveryEvent::PeerExpired { display_name, device_id } => {
                out.append("peer expired ");
                out.append(display_name.as_str());
                out.append(" (");
                out.append(device_id.as_str());
                out.append(")");
            },
            DiscoveryEvent::Snapshot { count } => {
                push_decimal(&mut out, *count as u64);
                out.append(" peer(s)");
            },
            DiscoveryEvent::Error(message) => {
                out.append(message.as_str());
                error = true;
            },
        }
        proof {
            assert(out@ =~= head + self.report());
        }
        LogLine { text: out, error }
    }
}

/// A report names the direction and the transfer or group that it is about, and tells what was done
/// before what there is to do, chunks before bytes. Only files that were put on the clipboard are not
/// reported.
pub proof fn reports_tell_of_their_transfer(event: FileTransferEvent)
    ensures
        (event.report() is None) == (event is IncomingClipboardReady),
        event is OutgoingProgress ==> event.report() == Some(
            "outgoing #"@ + decimal(event->OutgoingProgress_transfer_id as nat) + ": "@ + decimal(
                event->OutgoingProgress_sent_chunks as nat,
            ) + "/"@ + decimal(event->OutgoingProgress_total_chunks as nat) + " chunks, "@
                + decimal(event->OutgoingProgress_sent_bytes as nat) + "/"@ + decimal(
                event->OutgoingProgress_total_size as nat,
            ) + " bytes"@,
        ),
        event is IncomingProgress ==> event.report() == Some(
            "incoming #"@ + decimal(event->IncomingProgress_transfer_id as nat) + ": "@ + decimal(
                event->IncomingProgress_received_chunks as nat,
            ) + "/"@ + decimal(event->IncomingProgress_total_chunks as nat) + " chunks, "@
                + decimal(event->IncomingProgress_received_bytes as nat) + "/"@ + decimal(
                event->IncomingProgress_total_size as nat,
            ) + " bytes"@,
        ),
        event is OutgoingCompleted ==> event.report() == Some(
            "outgoing #"@ + decimal(event->OutgoingCompleted_transfer_id as nat) + " completed"@,
        ),
        event is OutgoingCancelled ==> event.report() == Some(
            "outgoing #"@ + decimal(event->OutgoingCancelled_transfer_id as nat) + " cancelled"@,
        ),
        event is OutgoingGroupCancelled ==> event.report() == Some(
            "outgoing group #"@ + decimal(event->OutgoingGroupCancelled_group_id as nat)
                + " cancelled"@,
        ),
        event is IncomingGroupCancelled ==> event.report() == Some(
            "incoming group #"@ + decimal(event->IncomingGroupCancelled_group_id as nat)
                + " cancelled"@,
        ),
{
}

/// The other reports name what they are about in the same way, and what is told of other devices names
/// them.
pub proof fn reports_name_what_they_are_about(event: FileTransferEvent, seen: DiscoveryEvent)
    ensures
        match event {
            FileTransferEvent::OutgoingGroupStarted { group_id, file_count, total_size_bytes } =>
                event.report() == Some(
                    "outgoing group #"@ + decimal(group_id as nat) + " started: "@ + decimal(
                        file_count as nat,
                    ) + " files, "@ + decimal(total_size_bytes as nat) + " bytes"@,
                ),
            FileTransferEvent::OutgoingGroupCompleted { group_id, file_count, total_size_bytes } =>
                event.report() == Some(
                    "outgoing group #"@ + decimal(group_id as nat) + " completed: "@ + decimal(
                        file_count as nat,
                    ) + " files, "@ + decimal(total_size_bytes as nat) + " bytes"@,
                ),
            FileTransferEvent::OutgoingStarted {
                transfer_id,
                name,
                size_bytes,
                total_chunks,
                ..
            } => event.report() == Some(
                "outgoing #"@ + decimal(transfer_id as nat) + " started: "@ + name@ + " ("@
                    + decimal(size_bytes as nat) + " bytes, "@ + decimal(total_chunks as nat)
                    + " chunks)"@,
            ),
            FileTransferEvent::IncomingStarted { transfer_id, name, size_bytes, path, .. } =>
                event.report() == Some(
                    "incoming #"@ + decimal(transfer_id as nat) + " started: "@ + name@ + " ("@
                        + decimal(size_bytes as nat) + " bytes) -> "@ + path@,
                ),
            FileTransferEvent::IncomingCompleted { transfer_id, path, size_bytes, .. } =>
                event.report() == Some(
                    "incoming #"@ + decimal(transfer_id as nat) + " completed: "@ + path@ + " ("@
                        + decimal(size_bytes as nat) + " bytes)"@,
                ),
            FileTransferEvent::IncomingCancelled { transfer_id, path, .. } => event.report() == Some(
                "incoming #"@ + decimal(transfer_id as nat) + " cancelled and cleaned: "@ + path@,
            ),
            FileTransferEvent::IncomingGroupCompleted { group_id, paths, total_size_bytes } =>
                event.report() == Some(
                    "incoming group #"@ + decimal(group_id as nat) + " completed: "@ + decimal(
                        paths@.len(),
                    ) + " files, "@ + decimal(total_size_bytes as nat) + " bytes"@,
                ),
            FileTransferEvent::Error { transfer_id: Some(id), message } => event.report() == Some(
                "error "@ + ("Some("@ + decimal(id as nat) + ")"@) + ": "@ + message@,
            ),
            FileTransferEvent::Error { transfer_id: None, message } => event.report() == Some(
                "error "@ + "None"@ + ": "@ + message@,
            ),
            _ => true,
        },
        match seen {
            DiscoveryEvent::PeerSeen { display_name, endpoint, device_id } => seen.report()
                == "peer "@ + display_name@ + " at "@ + endpoint@ + " ("@ + device_id@ + ")"@,
            DiscoveryEvent::PeerExpired { display_name, device_id } => seen.report()
                == "peer expired "@ + display_name@ + " ("@ + device_id@ + ")"@,
            DiscoveryEvent::Snapshot { count } => seen.report() == decimal(count as nat)
                + " peer(s)"@,
            DiscoveryEvent::Error(message) => seen.report() == message@,
        },
{
}

} // verus!
