//! The list of transfers that the viewer shows.
use crate::file_transfer::FileTransferEvent;
use crate::text::{decimal, push_decimal};
use vstd::prelude::*;

verus! {

#[derive(Debug, Clone, Copy, PartialEq, Eq, Structural)]
pub enum TransferDirection {
    Outgoing,
    Incoming,
}

#[derive(Debug, Clone, Copy, PartialEq, Eq, Structural)]
pub enum TransferStatus {
    Running,
    Completed,
    Cancelled,
    Error,
}

#[derive(Debug, Clone, Copy, PartialEq, Eq, Structural)]
pub enum TransferCancelTarget {
    Transfer(u64),
    Group(u64),
}

/// One row of the list.
#[derive(Debug, PartialEq, Eq)]
pub struct TransferEntrySnapshot {
    pub direction: TransferDirection,
    pub label: String,
    pub detail: String,
    pub transferred_bytes: u64,
    pub total_bytes: u64,
    pub status: TransferStatus,
    pub cancel_target: Option<TransferCancelTarget>,
}

/// A row, with its texts as sequences of characters.
pub ghost struct Row {
    pub direction: TransferDirection,
    pub label: Seq<char>,
    pub detail: Seq<char>,
    pub transferred_bytes: u64,
    pub total_bytes: u64,
    pub status: TransferStatus,
    pub cancel_target: Option<TransferCancelTarget>,
}

impl View for TransferEntrySnapshot {
    type V = Row;

    open spec fn view(&self) -> Row {
        Row {
            direction: self.direction,
            label: self.label@,
            detail: self.detail@,
            transferred_bytes: self.transferred_bytes,
            total_bytes: self.total_bytes,
            status: self.status,
            cancel_target: self.cancel_target,
        }
    }
}

impl Clone for TransferEntrySnapshot {
    fn clone(&self) -> (r: Self)
        ensures
            r@ == self@,
    {
        TransferEntrySnapshot {
            direction: self.direction,
            label: self.label.clone(),
            detail: self.detail.clone(),
            transferred_bytes: self.transferred_bytes,
            total_bytes: self.total_bytes,
            status: self.status,
            cancel_target: self.cancel_target,
        }
    }
}

impl TransferEntrySnapshot {
    /// How far the transfer has come, as a fraction of two numbers that never exceeds one. An empty
    /// transfer is nothing until it is complete, and then all.
    pub fn progress(&self) -> (r: (u64, u64))
        ensures
            r == (if self.total_bytes == 0 {
                if self.status is Completed {
                    (1u64, 1u64)
                } else {
                    (0u64, 1u64)
                }
            } else if self.transferred_bytes > self.total_bytes {
                (self.total_bytes, self.total_bytes)
            } else {
                (self.transferred_bytes, self.total_bytes)
            }),
    {
        if self.total_bytes == 0 {
            return if self.status == TransferStatus::Completed {
                (1, 1)
            } else {
                (0, 1)
            };
        }
        if self.transferred_bytes > self.total_bytes {
            (self.total_bytes, self.total_bytes)
        } else {
            (self.transferred_bytes, self.total_bytes)
        }
    }

    pub fn is_running(&self) -> (r: bool)
        ensures
            r == (self.status is Running),
    {
        self.status == TransferStatus::Running
    }
}

/// What a row stands for: a file that is sent by itself, or a group of files.
#[derive(Debug, Clone, Copy, PartialEq, Eq, Structural)]
pub enum TransferKey {
    Transfer { direction: TransferDirection, transfer_id: u64 },
    Group { direction: TransferDirection, group_id: u64 },
}

#[derive(Debug)]
struct TransferEntry {
    key: TransferKey,
    snapshot: TransferEntrySnapshot,
    updated_seq: u64,
}

/// A row with its key and the time of its last change.
pub ghost struct Entry {
    pub key: TransferKey,
    pub row: Row,
    pub updated_seq: u64,
}

impl View for TransferEntry {
    type V = Entry;

    closed spec fn view(&self) -> Entry {
        Entry { key: self.key, row: self.snapshot@, updated_seq: self.updated_seq }
    }
}

/// How far a file has come that is known by its transfer, and the group it belongs to.
#[derive(Debug, Clone, Copy, PartialEq, Eq, Structural)]
pub struct ChildProgress {
    pub direction: TransferDirection,
    pub transfer_id: u64,
    pub group_id: Option<u64>,
    pub transferred_bytes: u64,
    pub total_bytes: u64,
}

/// The list: rows in the order in which they were opened, files by transfer, and a clock that
/// counts changes.
pub ghost struct Center {
    pub entries: Seq<Entry>,
    pub children: Seq<ChildProgress>,
    pub seq: u64,
}

/// The clock after one tick; it stops at the end of its range.
pub open spec fn ticked(seq: u64) -> u64 {
    if seq < u64::MAX {
        (seq + 1) as u64
    } else {
        seq
    }
}

/// The first row of `key`, or the number of rows if it has none.
pub open spec fn row_of(entries: Seq<Entry>, key: TransferKey) -> int
    decreases entries.len(),
{
    if entries.len() == 0 {
        0
    } else {
        let before = row_of(entries.drop_last(), key);
        if before < entries.len() - 1 || entries.last().key == key {
            before
        } else {
            entries.len() as int
        }
    }
}

/// The first file of that transfer, or the number of files if it has none.
pub open spec fn child_of(
    children: Seq<ChildProgress>,
    direction: TransferDirection,
    transfer_id: u64,
) -> int
    decreases children.len(),
{
    if children.len() == 0 {
        0
    } else {
        let before = child_of(children.drop_last(), direction, transfer_id);
        if before < children.len() - 1 || (children.last().direction == direction
            && children.last().transfer_id == transfer_id) {
            before
        } else {
            children.len() as int
        }
    }
}

/// The first row, among the files sent by themselves in either direction, of that transfer.
pub open spec fn any_row_of(entries: Seq<Entry>, transfer_id: u64) -> int
    decreases entries.len(),
{
    if entries.len() == 0 {
        0
    } else {
        let before = any_row_of(entries.drop_last(), transfer_id);
        if before < entries.len() - 1 || is_transfer(entries.last().key, transfer_id) {
            before
        } else {
            entries.len() as int
        }
    }
}

pub open spec fn is_transfer(key: TransferKey, transfer_id: u64) -> bool {
    key is Transfer && key->Transfer_transfer_id == transfer_id
}

/// What the files of a group have come to, all together.
pub open spec fn group_bytes(
    children: Seq<ChildProgress>,
    direction: TransferDirection,
    group_id: u64,
) -> nat
    decreases children.len(),
{
    if children.len() == 0 {
        0
    } else {
        let child = children.last();
        group_bytes(children.drop_last(), direction, group_id) + if child.direction == direction
            && child.group_id == Some(group_id) {
            child.transferred_bytes as nat
        } else {
            0
        }
    }
}

impl Center {
    /// Opens the row of `key`, or overwrites it.
    pub open spec fn opened(self, key: TransferKey, row: Row) -> Self {
        let entry = Entry { key, row, updated_seq: ticked(self.seq) };
        let at = row_of(self.entries, key);
        Center {
            entries: if at < self.entries.len() {
                self.entries.update(at, entry)
            } else {
                self.entries.push(entry)
            },
            seq: ticked(self.seq),
            ..self
        }
    }

    /// Applies `change` to the row of `key`, if it has one.
    pub open spec fn changed(self, key: TransferKey, change: spec_fn(Row) -> Row) -> Self {
        let at = row_of(self.entries, key);
        Center {
            entries: if at < self.entries.len() {
                self.entries.update(
                    at,
                    Entry { key, row: change(self.entries[at].row), updated_seq: ticked(self.seq) },
                )
            } else {
                self.entries
            },
            seq: ticked(self.seq),
            ..self
        }
    }

    /// Remembers a file.
    pub open spec fn with_child(self, child: ChildProgress) -> Self {
        let at = child_of(self.children, child.direction, child.transfer_id);
        Center {
            children: if at < self.children.len() {
                self.children.update(at, child)
            } else {
                self.children.push(child)
            },
            ..self
        }
    }

    /// The group that a file is known to belong to.
    pub open spec fn group_of(self, direction: TransferDirection, transfer_id: u64) -> Option<u64> {
        let at = child_of(self.children, direction, transfer_id);
        if at < self.children.len() {
            self.children[at].group_id
        } else {
            None
        }
    }

    /// Opens the row of a running group.
    pub open spec fn group_started(
        self,
        direction: TransferDirection,
        group_id: u64,
        detail: Seq<char>,
        total_bytes: u64,
    ) -> Self {
        self.opened(
            TransferKey::Group { direction, group_id },
            Row {
                direction,
                label: "Group #"@ + decimal(group_id as nat),
                detail,
                transferred_bytes: group_bytes(self.children, direction, group_id) as u64,
                total_bytes,
                status: TransferStatus::Running,
                cancel_target: Some(TransferCancelTarget::Group(group_id)),
            },
        )
    }

    /// Opens the row of a running file that is sent by itself.
    pub open spec fn transfer_started(
        self,
        direction: TransferDirection,
        transfer_id: u64,
        label: Seq<char>,
        detail: Seq<char>,
        total_bytes: u64,
    ) -> Self {
        self.opened(
            TransferKey::Transfer { direction, transfer_id },
            Row {
                direction,
                label,
                detail,
                transferred_bytes: 0,
                total_bytes,
                status: TransferStatus::Running,
                cancel_target: Some(TransferCancelTarget::Transfer(transfer_id)),
            },
        )
    }

    /// A file has come to `transferred_bytes`: the row of its group shows the sum, or else its own
    /// row shows it.
    pub open spec fn progressed(
        self,
        direction: TransferDirection,
        transfer_id: u64,
        transferred_bytes: u64,
        total_bytes: u64,
    ) -> Self {
        let group_id = self.group_of(direction, transfer_id);
        let known = self.with_child(
            ChildProgress { direction, transfer_id, group_id, transferred_bytes, total_bytes },
        );
        match group_id {
            Some(group_id) => known.changed(
                TransferKey::Group { direction, group_id },
                |row: Row|
                    Row {
                        transferred_bytes: group_bytes(known.children, direction, group_id) as u64,
                        ..row
                    },
            ),
            None => known.changed(
                TransferKey::Transfer { direction, transfer_id },
                |row: Row| Row { transferred_bytes, total_bytes, ..row },
            ),
        }
    }

    /// The transfer behind `key` is over.
    pub open spec fn ended(self, key: TransferKey, status: TransferStatus) -> Self {
        self.changed(key, |row: Row| ended_row(row, status))
    }

    /// The row of that transfer explains itself.
    pub open spec fn explained(self, transfer_id: u64, detail: Seq<char>) -> Self {
        let at = any_row_of(self.entries, transfer_id);
        if at < self.entries.len() {
            let entry = self.entries[at];
            Center {
                entries: self.entries.update(
                    at,
                    Entry { row: Row { detail, ..entry.row }, ..entry },
                ),
                ..self
            }
        } else {
            self
        }
    }

    /// The list after an event.
    pub open spec fn after(self, event: FileTransferEvent) -> Self {
        let out = TransferDirection::Outgoing;
        let inc = TransferDirection::Incoming;
        match event {
            FileTransferEvent::OutgoingGroupStarted { group_id, file_count, total_size_bytes } =>
                self.group_started(
                    out,
                    group_id,
                    decimal(file_count as nat) + " files"@,
                    total_size_bytes,
                ),
            FileTransferEvent::OutgoingStarted { transfer_id, group, name, size_bytes, .. } =>
                match group {
                    Some(group) => self.with_child(
                        ChildProgress {
                            direction: out,
                            transfer_id,
                            group_id: Some(group.group_id),
                            transferred_bytes: 0,
                            total_bytes: size_bytes,
                        },
                    ),
                    None => self.transfer_started(out, transfer_id, name@, Seq::empty(), size_bytes),
                },
            FileTransferEvent::OutgoingProgress { transfer_id, sent_bytes, total_size, .. } =>
                self.progressed(out, transfer_id, sent_bytes, total_size),
            FileTransferEvent::OutgoingCompleted { transfer_id, group, .. } => self.ended(
                end_key(out, transfer_id, group),
                TransferStatus::Completed,
            ),
            FileTransferEvent::OutgoingGroupCompleted { group_id, .. } => self.ended(
                TransferKey::Group { direction: out, group_id },
                TransferStatus::Completed,
            ),
            FileTransferEvent::OutgoingCancelled { transfer_id, group, .. } => self.ended(
                end_key(out, transfer_id, group),
                TransferStatus::Cancelled,
            ),
            FileTransferEvent::OutgoingGroupCancelled { group_id } => self.ended(
                TransferKey::Group { direction: out, group_id },
                TransferStatus::Cancelled,
            ),
            FileTransferEvent::IncomingStarted {
                transfer_id,
                group,
                name,
                size_bytes,
                path,
                ..
            } => match group {
                Some(group) => self.group_started(
                    inc,
                    group.group_id,
                    decimal(group.file_count as nat) + " files"@,
                    group.group_total_size_bytes,
                ).with_child(
                    ChildProgress {
                        direction: inc,
                        transfer_id,
                        group_id: Some(group.group_id),
                        transferred_bytes: 0,
                        total_bytes: size_bytes,
                    },
                ),
                None => self.transfer_started(inc, transfer_id, name@, path@, size_bytes),
            },
            FileTransferEvent::IncomingProgress {
                transfer_id,
                received_bytes,
                total_size,
                ..
            } => self.progressed(inc, transfer_id, received_bytes, total_size),
            FileTransferEvent::IncomingCompleted { transfer_id, group, size_bytes, .. } =>
                match group {
                    Some(_) => self.progressed(inc, transfer_id, size_bytes, size_bytes),
                    None => self.ended(
                        TransferKey::Transfer { direction: inc, transfer_id },
                        TransferStatus::Completed,
                    ),
                },
            FileTransferEvent::IncomingGroupCompleted { group_id, .. } => self.ended(
                TransferKey::Group { direction: inc, group_id },
                TransferStatus::Completed,
            ),
            FileTransferEvent::IncomingCancelled { transfer_id, group, .. } => self.ended(
                end_key(inc, transfer_id, group),
                TransferStatus::Cancelled,
            ),
            FileTransferEvent::IncomingGroupCancelled { group_id } => self.ended(
                TransferKey::Group { direction: inc, group_id },
                TransferStatus::Cancelled,
            ),
            FileTransferEvent::Error { transfer_id, message } => match transfer_id {
                Some(transfer_id) => self.ended(
                    TransferKey::Transfer { direction: out, transfer_id },
                    TransferStatus::Error,
                ).explained(transfer_id, message@),
                None => self,
            },
            FileTransferEvent::IncomingClipboardReady { .. } => self,
        }
    }

    /// The row in which the progress of a file shows: that of its group, or else its own.
    pub open spec fn progress_key(
        self,
        direction: TransferDirection,
        transfer_id: u64,
    ) -> TransferKey {
        match self.group_of(direction, transfer_id) {
            Some(group_id) => TransferKey::Group { direction, group_id },
            None => TransferKey::Transfer { direction, transfer_id },
        }
    }

    /// The row that an event opens or changes, if it has one. A file of a group that goes out has
    /// none before it progresses.
    pub open spec fn touched(self, event: FileTransferEvent) -> Option<TransferKey> {
        let out = TransferDirection::Outgoing;
        let inc = TransferDirection::Incoming;
        match event {
            FileTransferEvent::OutgoingGroupStarted { group_id, .. }
            | FileTransferEvent::OutgoingGroupCompleted { group_id, .. }
            | FileTransferEvent::OutgoingGroupCancelled { group_id } => Some(
                TransferKey::Group { direction: out, group_id },
            ),
            FileTransferEvent::OutgoingStarted { transfer_id, group, .. } => match group {
                Some(_) => None,
                None => Some(TransferKey::Transfer { direction: out, transfer_id }),
            },
            FileTransferEvent::OutgoingProgress { transfer_id, .. } => Some(
                self.progress_key(out, transfer_id),
            ),
            FileTransferEvent::OutgoingCompleted { transfer_id, group, .. }
            | FileTransferEvent::OutgoingCancelled { transfer_id, group, .. } => Some(
                end_key(out, transfer_id, group),
            ),
            FileTransferEvent::IncomingGroupCompleted { group_id, .. }
            | FileTransferEvent::IncomingGroupCancelled { group_id } => Some(
                TransferKey::Group { direction: inc, group_id },
            ),
            FileTransferEvent::IncomingStarted { transfer_id, group, .. }
            | FileTransferEvent::IncomingCancelled { transfer_id, group, .. } => Some(
                end_key(inc, transfer_id, group),
            ),
            FileTransferEvent::IncomingProgress { transfer_id, .. } => Some(
                self.progress_key(inc, transfer_id),
            ),
            FileTransferEvent::IncomingCompleted { transfer_id, group, .. } => Some(
                match group {
                    Some(_) => self.progress_key(inc, transfer_id),
                    None => TransferKey::Transfer { direction: inc, transfer_id },
                },
            ),
            FileTransferEvent::Error { transfer_id, .. } => match transfer_id {
                Some(transfer_id) => Some(TransferKey::Transfer { direction: out, transfer_id }),
                None => None,
            },
            FileTransferEvent::IncomingClipboardReady { .. } => None,
        }
    }

    /// The sum over a group that an event makes the list show; nought if it shows none.
    pub open spec fn sum_after(self, event: FileTransferEvent) -> nat {
        match event {
            FileTransferEvent::OutgoingGroupStarted { group_id, .. } => group_bytes(
                self.children,
                TransferDirection::Outgoing,
                group_id,
            ),
            FileTransferEvent::IncomingStarted { group, .. } => match group {
                Some(group) => group_bytes(
                    self.children,
                    TransferDirection::Incoming,
                    group.group_id,
                ),
                None => 0,
            },
            FileTransferEvent::OutgoingProgress { transfer_id, sent_bytes, total_size, .. } =>
                self.progress_sum(
                    TransferDirection::Outgoing,
                    transfer_id,
                    sent_bytes,
                    total_size,
                ),
            FileTransferEvent::IncomingProgress {
                transfer_id,
                received_bytes,
                total_size,
                ..
            } => self.progress_sum(
                TransferDirection::Incoming,
                transfer_id,
                received_bytes,
                total_size,
            ),
            FileTransferEvent::IncomingCompleted { transfer_id, group, size_bytes, .. } =>
                match group {
                    Some(_) => self.progress_sum(
                        TransferDirection::Incoming,
                        transfer_id,
                        size_bytes,
                        size_bytes,
                    ),
                    None => 0,
                },
            _ => 0,
        }
    }

    pub open spec fn progress_sum(
        self,
        direction: TransferDirection,
        transfer_id: u64,
        transferred_bytes: u64,
        total_bytes: u64,
    ) -> nat {
        let group_id = self.group_of(direction, transfer_id);
        match group_id {
            Some(id) => group_bytes(
                self.with_child(
                    ChildProgress { direction, transfer_id, group_id, transferred_bytes, total_bytes },
                ).children,
                direction,
                id,
            ),
            None => 0,
        }
    }

    /// No two rows share a key, and every change lies before the clock.
    pub open spec fn wf(self) -> bool {
        &&& forall|i: int, j: int|
            #![trigger self.entries[i], self.entries[j]]
            0 <= i < j < self.entries.len() ==> self.entries[i].key != self.entries[j].key
        &&& forall|i: int|
            #![trigger self.entries[i]]
            0 <= i < self.entries.len() ==> self.entries[i].updated_seq <= self.seq
        &&& forall|i: int|
            #![trigger self.entries[i]]
            0 <= i < self.entries.len() ==> cancel_fits(self.entries[i])
    }
}

/// A row can be cancelled exactly while it runs, and then by its own key.
pub open spec fn cancel_fits(entry: Entry) -> bool {
    entry.row.cancel_target == (if entry.row.status is Running {
        Some(
            match entry.key {
                TransferKey::Transfer { transfer_id, .. } => TransferCancelTarget::Transfer(
                    transfer_id,
                ),
                TransferKey::Group { group_id, .. } => TransferCancelTarget::Group(group_id),
            },
        )
    } else {
        None
    })
}

pub open spec fn ended_row(row: Row, status: TransferStatus) -> Row {
    Row {
        status,
        cancel_target: None,
        transferred_bytes: if status is Completed {
            row.total_bytes
        } else {
            row.transferred_bytes
        },
        ..row
    }
}

/// The row that ends with a file: the row of its group, or its own.
pub open spec fn end_key(
    direction: TransferDirection,
    transfer_id: u64,
    group: Option<crate::protocol::objects::FileTransferGroup>,
) -> TransferKey {
    match group {
        Some(group) => TransferKey::Group { direction, group_id: group.group_id },
        None => TransferKey::Transfer { direction, transfer_id },
    }
}

/// `row_of` finds the first row with the key, and no row before it has it.
proof fn lemma_row_of(entries: Seq<Entry>, key: TransferKey)
    ensures
        0 <= row_of(entries, key) <= entries.len(),
        row_of(entries, key) < entries.len() ==> entries[row_of(entries, key)].key == key,
        forall|i: int|
            #![trigger entries[i]]
            0 <= i < row_of(entries, key) ==> entries[i].key != key,
    decreases entries.len(),
{
    if entries.len() > 0 {
        lemma_row_of(entries.drop_last(), key);
        assert forall|i: int|
            #![trigger entries[i]]
            0 <= i < row_of(entries, key) implies entries[i].key != key by {
            if i < entries.len() - 1 {
                assert(entries[i] == entries.drop_last()[i]);
            }
        }
    }
}

/// The first index with the key is where `row_of` points.
proof fn lemma_row_at(entries: Seq<Entry>, key: TransferKey, at: int)
    requires
        0 <= at <= entries.len(),
        at < entries.len() ==> entries[at].key == key,
        forall|i: int| #![trigger entries[i]] 0 <= i < at ==> entries[i].key != key,
    ensures
        row_of(entries, key) == at,
{
    lemma_row_of(entries, key);
    let found = row_of(entries, key);
    if found < at {
        assert(entries[found].key == key);
    }
    if at < found {
        assert(entries[at].key == key);
    }
}

proof fn lemma_any_row_of(entries: Seq<Entry>, transfer_id: u64)
    ensures
        0 <= any_row_of(entries, transfer_id) <= entries.len(),
        any_row_of(entries, transfer_id) < entries.len() ==> is_transfer(
            entries[any_row_of(entries, transfer_id)].key,
            transfer_id,
        ),
        forall|i: int|
            #![trigger entries[i]]
            0 <= i < any_row_of(entries, transfer_id) ==> !is_transfer(entries[i].key, transfer_id),
    decreases entries.len(),
{
    if entries.len() > 0 {
        lemma_any_row_of(entries.drop_last(), transfer_id);
        assert forall|i: int|
            #![trigger entries[i]]
            0 <= i < any_row_of(entries, transfer_id) implies !is_transfer(
            entries[i].key,
            transfer_id,
        ) by {
            if i < entries.len() - 1 {
                assert(entries[i] == entries.drop_last()[i]);
            }
        }
    }
}

proof fn lemma_any_row_at(entries: Seq<Entry>, transfer_id: u64, at: int)
    requires
        0 <= at <= entries.len(),
        at < entries.len() ==> is_transfer(entries[at].key, transfer_id),
        forall|i: int|
            #![trigger entries[i]]
            0 <= i < at ==> !is_transfer(entries[i].key, transfer_id),
    ensures
        any_row_of(entries, transfer_id) == at,
{
    lemma_any_row_of(entries, transfer_id);
    let found = any_row_of(entries, transfer_id);
    if found < at {
        assert(is_transfer(entries[found].key, transfer_id));
    }
    if at < found {
        assert(is_transfer(entries[at].key, transfer_id));
    }
}

pub open spec fn is_child(child: ChildProgress, direction: TransferDirection, transfer_id: u64) -> bool {
    child.direction == direction && child.transfer_id == transfer_id
}

proof fn lemma_child_of(
    children: Seq<ChildProgress>,
    direction: TransferDirection,
    transfer_id: u64,
)
    ensures
        0 <= child_of(children, direction, transfer_id) <= children.len(),
        child_of(children, direction, transfer_id) < children.len() ==> is_child(
            children[child_of(children, direction, transfer_id)],
            direction,
            transfer_id,
        ),
        forall|i: int|
            #![trigger children[i]]
            0 <= i < child_of(children, direction, transfer_id) ==> !is_child(
                children[i],
                direction,
                transfer_id,
            ),
    decreases children.len(),
{
    if children.len() > 0 {
        lemma_child_of(children.drop_last(), direction, transfer_id);
        assert forall|i: int|
            #![trigger children[i]]
            0 <= i < child_of(children, direction, transfer_id) implies !is_child(
            children[i],
            direction,
            transfer_id,
        ) by {
            if i < children.len() - 1 {
                assert(children[i] == children.drop_last()[i]);
            }
        }
    }
}

proof fn lemma_child_at(
    children: Seq<ChildProgress>,
    direction: TransferDirection,
    transfer_id: u64,
    at: int,
)
    requires
        0 <= at <= children.len(),
        at < children.len() ==> is_child(children[at], direction, transfer_id),
        forall|i: int|
            #![trigger children[i]]
            0 <= i < at ==> !is_child(children[i], direction, transfer_id),
    ensures
        child_of(children, direction, transfer_id) == at,
{
    lemma_child_of(children, direction, transfer_id);
    let found = child_of(children, direction, transfer_id);
    if found < at {
        assert(is_child(children[found], direction, transfer_id));
    }
    if at < found {
        assert(is_child(children[at], direction, transfer_id));
    }
}

/// A part of a group comes to no more than the whole of it.
proof fn lemma_group_bytes_prefix(
    children: Seq<ChildProgress>,
    direction: TransferDirection,
    group_id: u64,
    n: int,
)
    requires
        0 <= n <= children.len(),
    ensures
        group_bytes(children.take(n), direction, group_id) <= group_bytes(
            children,
            direction,
            group_id,
        ),
    decreases children.len(),
{
    if n < children.len() {
        lemma_group_bytes_prefix(children.drop_last(), direction, group_id, n);
        assert(children.drop_last().take(n) =~= children.take(n));
    } else {
        assert(children.take(n) =~= children);
    }
}

/// The entries of the list, seen as what they show.
spec fn shown(entries: Seq<TransferEntry>) -> Seq<Entry> {
    entries.map_values(|e: TransferEntry| e@)
}

/// Puts `entry` behind all rows that changed no earlier.
pub open spec fn insert_newest(sorted: Seq<Entry>, entry: Entry) -> Seq<Entry>
    decreases sorted.len(),
{
    if sorted.len() == 0 || sorted.last().updated_seq >= entry.updated_seq {
        sorted.push(entry)
    } else {
        insert_newest(sorted.drop_last(), entry).push(sorted.last())
    }
}

/// The rows by the time of their last change, the newest first; rows of the same time in the order
/// in which they were opened.
pub open spec fn newest_first(entries: Seq<Entry>) -> Seq<Entry>
    decreases entries.len(),
{
    if entries.len() == 0 {
        entries
    } else {
        insert_newest(newest_first(entries.drop_last()), entries.last())
    }
}

#[derive(Debug)]
pub struct TransferCenterState {
    entries: Vec<TransferEntry>,
    child_progress: Vec<ChildProgress>,
    seq: u64,
}

impl View for TransferCenterState {
    type V = Center;

    closed spec fn view(&self) -> Center {
        Center {
            entries: shown(self.entries@),
            children: self.child_progress@,
            seq: self.seq,
        }
    }
}

impl Clone for TransferCenterState {
    fn clone(&self) -> (r: Self)
        ensures
            r@ == self@,
    {
        let mut entries: Vec<TransferEntry> = Vec::new();
        let mut i: usize = 0;
        while i < self.entries.len()
            invariant
                i <= self.entries@.len(),
                entries@.len() == i,
                forall|j: int| 0 <= j < i ==> (#[trigger] entries@[j])@ == self.entries@[j]@,
            decreases self.entries.len() - i,
        {
            let entry = &self.entries[i];
            entries.push(
                TransferEntry {
                    key: entry.key,
                    snapshot: entry.snapshot.clone(),
                    updated_seq: entry.updated_seq,
                },
            );
            i += 1;
        }
        let mut child_progress: Vec<ChildProgress> = Vec::new();
        let mut k: usize = 0;
        while k < self.child_progress.len()
            invariant
                k <= self.child_progress@.len(),
                child_progress@ == self.child_progress@.take(k as int),
            decreases self.child_progress.len() - k,
        {
            child_progress.push(self.child_progress[k]);
            k += 1;
            proof {
                assert(child_progress@ =~= self.child_progress@.take(k as int));
            }
        }
        let r = TransferCenterState { entries, child_progress, seq: self.seq };
        proof {
            assert(r@.entries =~= self@.entries);
            assert(r@.children =~= self@.children);
        }
        r
    }
}

impl Default for TransferCenterState {
    fn default() -> (r: Self)
        ensures
            r@ == (Center { entries: Seq::empty(), children: Seq::empty(), seq: 0 }),
            r@.wf(),
    {
        let r = TransferCenterState { entries: Vec::new(), child_progress: Vec::new(), seq: 0 };
        proof {
            assert(r@.entries =~= Seq::<Entry>::empty());
        }
        r
    }
}

impl TransferCenterState {
    /// Takes an event of the file transfer in.
    pub fn apply_event(&mut self, event: &FileTransferEvent)
        requires
            old(self)@.sum_after(*event) <= u64::MAX,
        ensures
            final(self)@ == old(self)@.after(*event),
            old(self)@.wf() ==> final(self)@.wf(),
    {
        proof {
            if self@.wf() {
                events_keep_list_in_order(self@, *event);
            }
        }
        match event {
            FileTransferEvent::OutgoingGroupStarted { group_id, file_count, total_size_bytes } => {
                self.upsert_group(
                    TransferDirection::Outgoing,
                    *group_id,
                    files_text(*file_count),
                    *total_size_bytes,
                    TransferStatus::Running,
                );
            },
            FileTransferEvent::OutgoingStarted { transfer_id, group, name, size_bytes, .. } => {
                match group {
                    Some(group) => {
                        self.record_child(
                            TransferDirection::Outgoing,
                            *transfer_id,
                            Some(group.group_id),
                            0,
                            *size_bytes,
                        );
                    },
                    None => {
                        self.upsert_transfer(
                            *transfer_id,
                            TransferEntrySnapshot {
                                direction: TransferDirection::Outgoing,
                                label: name.clone(),
                                detail: String::new(),
                                transferred_bytes: 0,
                                total_bytes: *size_bytes,
                                status: TransferStatus::Running,
                                cancel_target: Some(TransferCancelTarget::Transfer(*transfer_id)),
                            },
                        );
                    },
                }
            },
            FileTransferEvent::OutgoingProgress { transfer_id, sent_bytes, total_size, .. } => {
                self.record_progress(
                    TransferDirection::Outgoing,
                    *transfer_id,
                    *sent_bytes,
                    *total_size,
                );
            },
            FileTransferEvent::OutgoingCompleted { transfer_id, group, .. } => {
                match group {
                    Some(group) => {
                        self.mark_group_if_known(
                            TransferDirection::Outgoing,
                            group.group_id,
                            TransferStatus::Completed,
                        );
                    },
                    None => {
                        self.mark_transfer(
                            TransferDirection::Outgoing,
                            *transfer_id,
                            TransferStatus::Completed,
                        );
                    },
                }
            },
            FileTransferEvent::OutgoingGroupCompleted { group_id, .. } => {
                self.mark_group_if_known(
                    TransferDirection::Outgoing,
                    *group_id,
                    TransferStatus::Completed,
                );
            },
            FileTransferEvent::OutgoingCancelled { transfer_id, group, .. } => {
                match group {
                    Some(group) => {
                        self.mark_group_if_known(
                            TransferDirection::Outgoing,
                            group.group_id,
                            TransferStatus::Cancelled,
                        );
                    },
                    None => {
                        self.mark_transfer(
                            TransferDirection::Outgoing,
                            *transfer_id,
                            TransferStatus::Cancelled,
                        );
                    },
                }
            },
            FileTransferEvent::OutgoingGroupCancelled { group_id } => {
                self.mark_group_if_known(
                    TransferDirection::Outgoing,
                    *group_id,
                    TransferStatus::Cancelled,
                );
            },
            FileTransferEvent::IncomingStarted {
                transfer_id,
                group,
                name,
                size_bytes,
                path,
                ..
            } => {
                match group {
                    Some(group) => {
                        self.upsert_group(
                            TransferDirection::Incoming,
                            group.group_id,
                            files_text(group.file_count),
                            group.group_total_size_bytes,
                            TransferStatus::Running,
                        );
                        self.record_child(
                            TransferDirection::Incoming,
                            *transfer_id,
                            Some(group.group_id),
                            0,
                            *size_bytes,
                        );
                    },
                    None => {
                        self.upsert_transfer(
                            *transfer_id,
                            TransferEntrySnapshot {
                                direction: TransferDirection::Incoming,
                                label: name.clone(),
                                detail: path.clone(),
                                transferred_bytes: 0,
                                total_bytes: *size_bytes,
                                status: TransferStatus::Running,
                                cancel_target: Some(TransferCancelTarget::Transfer(*transfer_id)),
                            },
                        );
                    },
                }
            },
            FileTransferEvent::IncomingProgress {
                transfer_id,
                received_bytes,
                total_size,
                ..
            } => {
                self.record_progress(
                    TransferDirection::Incoming,
                    *transfer_id,
                    *received_bytes,
                    *total_size,
                );
            },
            FileTransferEvent::IncomingCompleted { transfer_id, group, size_bytes, .. } => {
                match group {
                    Some(_group) => {
                        self.record_progress(
                            TransferDirection::Incoming,
                            *transfer_id,
                            *size_bytes,
                            *size_bytes,
                        );
                    },
                    None => {
                        self.mark_transfer(
                            TransferDirection::Incoming,
                            *transfer_id,
                            TransferStatus::Completed,
                        );
                    },
                }
            },
            FileTransferEvent::IncomingGroupCompleted { group_id, .. } => {
                self.mark_group_if_known(
                    TransferDirection::Incoming,
                    *group_id,
                    TransferStatus::Completed,
                );
            },
            FileTransferEvent::IncomingCancelled { transfer_id, group, .. } => {
                match group {
                    Some(group) => {
                        self.mark_group_if_known(
                            TransferDirection::Incoming,
                            group.group_id,
                            TransferStatus::Cancelled,
                        );
                    },
                    None => {
                        self.mark_transfer(
                            TransferDirection::Incoming,
                            *transfer_id,
                            TransferStatus::Cancelled,
                        );
                    },
                }
            },
            FileTransferEvent::IncomingGroupCancelled { group_id } => {
                self.mark_group_if_known(
                    TransferDirection::Incoming,
                    *group_id,
                    TransferStatus::Cancelled,
                );
            },
            FileTransferEvent::Error { transfer_id, message } => {
                match transfer_id {
                    Some(transfer_id) => {
                        self.mark_transfer(
                            TransferDirection::Outgoing,
                            *transfer_id,
                            TransferStatus::Error,
                        );
                        self.update_detail_for_transfer(*transfer_id, message.clone());
                    },
                    None => {},
                }
            },
            FileTransferEvent::IncomingClipboardReady { .. } => {},
        }
    }

    /// Whether the sums that an event makes the list show fit their field.
    pub fn sums_fit(&self, event: &FileTransferEvent) -> (r: bool)
        ensures
            r == (self@.sum_after(*event) <= u64::MAX),
    {
        match event {
            FileTransferEvent::OutgoingGroupStarted { group_id, .. } => {
                self.group_fits(TransferDirection::Outgoing, *group_id, None)
            },
            FileTransferEvent::IncomingStarted { group, .. } => match group {
                Some(group) => self.group_fits(TransferDirection::Incoming, group.group_id, None),
                None => true,
            },
            FileTransferEvent::OutgoingProgress { transfer_id, sent_bytes, total_size, .. } => {
                self.progress_fits(
                    TransferDirection::Outgoing,
                    *transfer_id,
                    *sent_bytes,
                    *total_size,
                )
            },
            FileTransferEvent::IncomingProgress {
                transfer_id,
                received_bytes,
                total_size,
                ..
            } => self.progress_fits(
                TransferDirection::Incoming,
                *transfer_id,
                *received_bytes,
                *total_size,
            ),
            FileTransferEvent::IncomingCompleted { transfer_id, group, size_bytes, .. } => {
                match group {
                    Some(_) => self.progress_fits(
                        TransferDirection::Incoming,
                        *transfer_id,
                        *size_bytes,
                        *size_bytes,
                    ),
                    None => true,
                }
            },
            _ => true,
        }
    }

    fn progress_fits(
        &self,
        direction: TransferDirection,
        transfer_id: u64,
        transferred_bytes: u64,
        total_bytes: u64,
    ) -> (r: bool)
        ensures
            r == (self@.progress_sum(direction, transfer_id, transferred_bytes, total_bytes)
                <= u64::MAX),
    {
        let at = self.find_child(direction, transfer_id);
        if at >= self.child_progress.len() {
            return true;
        }
        match self.child_progress[at].group_id {
            Some(group_id) => {
                let child = ChildProgress {
                    direction,
                    transfer_id,
                    group_id: Some(group_id),
                    transferred_bytes,
                    total_bytes,
                };
                self.group_fits(direction, group_id, Some((at, child)))
            },
            None => true,
        }
    }

    /// Whether a group's sum fits its field, with one file replaced if asked for.
    fn group_fits(
        &self,
        direction: TransferDirection,
        group_id: u64,
        replaced: Option<(usize, ChildProgress)>,
    ) -> (r: bool)
        requires
            replaced is Some ==> (replaced->0).0 < self@.children.len(),
        ensures
            r == (group_bytes(
                match replaced {
                    Some((at, child)) => self@.children.update(at as int, child),
                    None => self@.children,
                },
                direction,
                group_id,
            ) <= u64::MAX),
    {
        let ghost children = match replaced {
            Some((at, child)) => self@.children.update(at as int, child),
            None => self@.children,
        };
        let mut sum: u64 = 0;
        let mut i: usize = 0;
        while i < self.child_progress.len()
            invariant
                i <= self.child_progress@.len(),
                children.len() == self.child_progress@.len(),
                replaced is Some ==> (replaced->0).0 < self.child_progress@.len(),
                children == (match replaced {
                    Some((at, child)) => self.child_progress@.update(at as int, child),
                    None => self.child_progress@,
                }),
                sum == group_bytes(children.take(i as int), direction, group_id),
            decreases self.child_progress.len() - i,
        {
            let mut child = self.child_progress[i];
            if let Some((at, new_child)) = replaced {
                if at == i {
                    child = new_child;
                }
            }
            proof {
                assert(child == children[i as int]);
                assert(children.take(i + 1).drop_last() =~= children.take(i as int));
                lemma_group_bytes_prefix(children, direction, group_id, i + 1);
            }
            if child.direction == direction && child.group_id == Some(group_id) {
                match sum.checked_add(child.transferred_bytes) {
                    Some(next) => {
                        sum = next;
                    },
                    None => return false,
                }
            }
            i += 1;
        }
        proof {
            assert(children.take(children.len() as int) =~= children);
        }
        true
    }

    /// The rows by the time of their last change, the newest first.
    pub fn snapshots(&self) -> (r: Vec<TransferEntrySnapshot>)
        ensures
            r@.map_values(|s: TransferEntrySnapshot| s@) == newest_first(
                self@.entries,
            ).map_values(|e: Entry| e.row),
    {
        let mut order: Vec<usize> = Vec::new();
        let mut i: usize = 0;
        while i < self.entries.len()
            invariant
                i <= self.entries@.len(),
                order@.len() == i,
                forall|k: int| #![trigger order@[k]] 0 <= k < i ==> order@[k] < i,
                order@.map_values(|n: usize| self.entries@[n as int]@) == newest_first(
                    shown(self.entries@).take(i as int),
                ),
            decreases self.entries.len() - i,
        {
            let ghost all = shown(self.entries@);
            let ghost sorted = newest_first(all.take(i as int));
            let ghost before = order@;
            let mut at: usize = order.len();
            proof {
                assert(all.take(i + 1).drop_last() =~= all.take(i as int));
                assert(all.take(i + 1).last() == all[i as int]);
                assert(sorted.take(at as int) =~= sorted);
                assert(sorted.skip(at as int) =~= Seq::<Entry>::empty());
                assert(insert_newest(sorted, all[i as int]) =~= insert_newest(
                    sorted.take(at as int),
                    all[i as int],
                ) + sorted.skip(at as int));
            }
            while at > 0 && self.entries[order[at - 1]].updated_seq < self.entries[i].updated_seq
                invariant
                    i < self.entries@.len(),
                    order@ == before,
                    at <= order@.len(),
                    forall|k: int|
                        #![trigger order@[k]]
                        0 <= k < order@.len() ==> order@[k] < self.entries@.len(),
                    sorted == order@.map_values(|n: usize| self.entries@[n as int]@),
                    all == shown(self.entries@),
                    insert_newest(sorted, all[i as int]) == insert_newest(
                        sorted.take(at as int),
                        all[i as int],
                    ) + sorted.skip(at as int),
                decreases at,
            {
                proof {
                    let shorter = sorted.take(at - 1);
                    assert(sorted.take(at as int).drop_last() =~= shorter);
                    assert(sorted.take(at as int).last() == sorted[at - 1]);
                    assert(sorted[at - 1] == self.entries@[order@[at - 1] as int]@);
                    assert(seq![sorted[at - 1]] + sorted.skip(at as int) =~= sorted.skip(at - 1));
                    assert(insert_newest(shorter, all[i as int]).push(sorted[at - 1])
                        + sorted.skip(at as int) =~= insert_newest(shorter, all[i as int])
                        + sorted.skip(at - 1));
                }
                at -= 1;
            }
            order.insert(at, i);
            proof {
                if at > 0 {
                    assert(sorted.take(at as int).last() == sorted[at - 1]);
                    assert(sorted[at - 1] == self.entries@[before[at - 1] as int]@);
                }
                assert(order@.map_values(|n: usize| self.entries@[n as int]@)
                    =~= sorted.take(at as int).push(all[i as int]) + sorted.skip(at as int));
                assert(newest_first(all.take(i + 1)) == insert_newest(sorted, all[i as int]));
            }
            i += 1;
        }
        let mut r: Vec<TransferEntrySnapshot> = Vec::new();
        let mut k: usize = 0;
        while k < order.len()
            invariant
                k <= order@.len(),
                r@.len() == k,
                forall|j: int|
                    #![trigger order@[j]]
                    0 <= j < order@.len() ==> order@[j] < self.entries@.len(),
                forall|j: int|
                    #![trigger r@[j]]
                    0 <= j < k ==> r@[j]@ == self.entries@[order@[j] as int].snapshot@,
            decreases order.len() - k,
        {
            r.push(self.entries[order[k]].snapshot.clone());
            k += 1;
        }
        proof {
            let all = shown(self.entries@);
            assert(all.take(all.len() as int) =~= all);
            let sorted = newest_first(all);
            assert(sorted == order@.map_values(|n: usize| self.entries@[n as int]@));
            assert forall|j: int| 0 <= j < r@.len() implies #[trigger] r@[j]@ == sorted[j].row by {
                assert(sorted[j] == self.entries@[order@[j] as int]@);
            }
            assert(r@.map_values(|s: TransferEntrySnapshot| s@) =~= sorted.map_values(
                |e: Entry| e.row,
            ));
        }
        r
    }

    fn upsert_group(
        &mut self,
        direction: TransferDirection,
        group_id: u64,
        detail: String,
        total_bytes: u64,
        status: TransferStatus,
    )
        requires
            group_bytes(old(self)@.children, direction, group_id) <= u64::MAX,
            status is Running,
        ensures
            final(self)@ == old(self)@.group_started(direction, group_id, detail@, total_bytes),
    {
        let mut label = "Group #".to_owned();
        push_decimal(&mut label, group_id);
        let transferred_bytes: u64 = self.group_transferred_bytes(direction, group_id);
        self.upsert_entry(
            TransferKey::Group { direction, group_id },
            TransferEntrySnapshot {
                direction,
                label,
                detail,
                transferred_bytes,
                total_bytes,
                status,
                cancel_target: Some(TransferCancelTarget::Group(group_id)),
            },
        );
    }

    fn upsert_transfer(&mut self, transfer_id: u64, snapshot: TransferEntrySnapshot)
        ensures
            final(self)@ == old(self)@.opened(
                TransferKey::Transfer { direction: snapshot.direction, transfer_id },
                snapshot@,
            ),
    {
        let direction = snapshot.direction;
        self.upsert_entry(TransferKey::Transfer { direction, transfer_id }, snapshot);
    }

    fn find_row(&self, key: TransferKey) -> (at: usize)
        ensures
            at == row_of(self@.entries, key),
            at <= self.entries@.len(),
    {
        let mut i: usize = 0;
        while i < self.entries.len()
            invariant
                i <= self.entries@.len(),
                forall|j: int|
                    #![trigger self@.entries[j]]
                    0 <= j < i ==> self@.entries[j].key != key,
            decreases self.entries.len() - i,
        {
            if self.entries[i].key == key {
                proof {
                    assert(self@.entries[i as int] == self.entries@[i as int]@);
                    lemma_row_at(self@.entries, key, i as int);
                }
                return i;
            }
            proof {
                assert(self@.entries[i as int] == self.entries@[i as int]@);
            }
            i += 1;
        }
        proof {
            lemma_row_at(self@.entries, key, i as int);
        }
        i
    }

    fn find_child(&self, direction: TransferDirection, transfer_id: u64) -> (at: usize)
        ensures
            at == child_of(self@.children, direction, transfer_id),
            at <= self.child_progress@.len(),
    {
        let mut i: usize = 0;
        while i < self.child_progress.len()
            invariant
                i <= self.child_progress@.len(),
                forall|j: int|
                    #![trigger self@.children[j]]
                    0 <= j < i ==> !is_child(self@.children[j], direction, transfer_id),
            decreases self.child_progress.len() - i,
        {
            if self.child_progress[i].direction == direction && self.child_progress[i].transfer_id
                == transfer_id {
                proof {
                    lemma_child_at(self@.children, direction, transfer_id, i as int);
                }
                return i;
            }
            i += 1;
        }
        proof {
            lemma_child_at(self@.children, direction, transfer_id, i as int);
        }
        i
    }

    fn upsert_entry(&mut self, key: TransferKey, snapshot: TransferEntrySnapshot)
        ensures
            final(self)@ == old(self)@.opened(key, snapshot@),
    {
        let ghost row = snapshot@;
        let updated_seq: u64 = self.next_seq();
        let at: usize = self.find_row(key);
        let entry = TransferEntry { key, snapshot, updated_seq };
        if at < self.entries.len() {
            self.entries[at] = entry;
        } else {
            self.entries.push(entry);
        }
        proof {
            assert(self@.entries =~= old(self)@.opened(key, row).entries);
        }
    }

    fn record_child(
        &mut self,
        direction: TransferDirection,
        transfer_id: u64,
        group_id: Option<u64>,
        transferred_bytes: u64,
        total_bytes: u64,
    )
        ensures
            final(self)@ == old(self)@.with_child(
                ChildProgress { direction, transfer_id, group_id, transferred_bytes, total_bytes },
            ),
    {
        let at: usize = self.find_child(direction, transfer_id);
        let child = ChildProgress {
            direction,
            transfer_id,
            group_id,
            transferred_bytes,
            total_bytes,
        };
        if at < self.child_progress.len() {
            self.child_progress[at] = child;
        } else {
            self.child_progress.push(child);
        }
    }

    fn record_progress(
        &mut self,
        direction: TransferDirection,
        transfer_id: u64,
        transferred_bytes: u64,
        total_bytes: u64,
    )
        requires
            old(self)@.progress_sum(direction, transfer_id, transferred_bytes, total_bytes)
                <= u64::MAX,
        ensures
            final(self)@ == old(self)@.progressed(
                direction,
                transfer_id,
                transferred_bytes,
                total_bytes,
            ),
    {
        let at: usize = self.find_child(direction, transfer_id);
        let group_id = if at < self.child_progress.len() {
            self.child_progress[at].group_id
        } else {
            None
        };
        self.record_child(direction, transfer_id, group_id, transferred_bytes, total_bytes);
        match group_id {
            Some(group_id) => self.refresh_group_progress(direction, group_id),
            None => {
                let updated_seq: u64 = self.next_seq();
                let ghost known = self@;
                let row: usize = self.find_row(TransferKey::Transfer { direction, transfer_id });
                if row < self.entries.len() {
                    proof {
                        lemma_row_of(
                            self@.entries,
                            TransferKey::Transfer { direction, transfer_id },
                        );
                        assert(self@.entries[row as int] == self.entries@[row as int]@);
                    }
                    let entry = &mut self.entries[row];
                    entry.snapshot.transferred_bytes = transferred_bytes;
                    entry.snapshot.total_bytes = total_bytes;
                    entry.updated_seq = updated_seq;
                }
                proof {
                    assert(self@.entries =~= old(self)@.progressed(
                        direction,
                        transfer_id,
                        transferred_bytes,
                        total_bytes,
                    ).entries);
                }
            },
        }
    }

    fn refresh_group_progress(&mut self, direction: TransferDirection, group_id: u64)
        requires
            group_bytes(old(self)@.children, direction, group_id) <= u64::MAX,
        ensures
            final(self)@ == old(self)@.changed(
                TransferKey::Group { direction, group_id },
                |row: Row|
                    Row {
                        transferred_bytes: group_bytes(
                            old(self)@.children,
                            direction,
                            group_id,
                        ) as u64,
                        ..row
                    },
            ),
    {
        let transferred_bytes: u64 = self.group_transferred_bytes(direction, group_id);
        let updated_seq: u64 = self.next_seq();
        let key = TransferKey::Group { direction, group_id };
        let at: usize = self.find_row(key);
        if at < self.entries.len() {
            proof {
                lemma_row_of(self@.entries, key);
                assert(self@.entries[at as int] == self.entries@[at as int]@);
            }
            let entry = &mut self.entries[at];
            entry.snapshot.transferred_bytes = transferred_bytes;
            entry.updated_seq = updated_seq;
        }
        proof {
            let change = |row: Row|
                Row {
                    transferred_bytes: group_bytes(
                        old(self)@.children,
                        direction,
                        group_id,
                    ) as u64,
                    ..row
                };
            assert(self@.entries =~= old(self)@.changed(key, change).entries);
        }
    }

    fn group_transferred_bytes(&self, direction: TransferDirection, group_id: u64) -> (r: u64)
        requires
            group_bytes(self@.children, direction, group_id) <= u64::MAX,
        ensures
            r == group_bytes(self@.children, direction, group_id),
    {
        let mut sum: u64 = 0;
        let mut i: usize = 0;
        while i < self.child_progress.len()
            invariant
                i <= self.child_progress@.len(),
                self@.children == self.child_progress@,
                group_bytes(self@.children, direction, group_id) <= u64::MAX,
                sum == group_bytes(self@.children.take(i as int), direction, group_id),
            decreases self.child_progress.len() - i,
        {
            let child = self.child_progress[i];
            proof {
                assert(self@.children.take(i + 1).drop_last() =~= self@.children.take(i as int));
                lemma_group_bytes_prefix(self@.children, direction, group_id, i + 1);
            }
            if child.direction == direction && child.group_id == Some(group_id) {
                sum = sum + child.transferred_bytes;
            }
            i += 1;
        }
        proof {
            assert(self@.children.take(self@.children.len() as int) =~= self@.children);
        }
        sum
    }

    fn mark(&mut self, key: TransferKey, status: TransferStatus)
        ensures
            final(self)@ == old(self)@.ended(key, status),
    {
        let updated_seq: u64 = self.next_seq();
        let at: usize = self.find_row(key);
        if at < self.entries.len() {
            proof {
                lemma_row_of(self@.entries, key);
                assert(self@.entries[at as int] == self.entries@[at as int]@);
            }
            let entry = &mut self.entries[at];
            entry.snapshot.status = status;
            entry.snapshot.cancel_target = None;
            if status == TransferStatus::Completed {
                entry.snapshot.transferred_bytes = entry.snapshot.total_bytes;
            }
            entry.updated_seq = updated_seq;
        }
        proof {
            assert(self@.entries =~= old(self)@.ended(key, status).entries);
        }
    }

    fn mark_transfer(
        &mut self,
        direction: TransferDirection,
        transfer_id: u64,
        status: TransferStatus,
    )
        ensures
            final(self)@ == old(self)@.ended(
                TransferKey::Transfer { direction, transfer_id },
                status,
            ),
    {
        self.mark(TransferKey::Transfer { direction, transfer_id }, status);
    }

    fn mark_group_if_known(
        &mut self,
        direction: TransferDirection,
        group_id: u64,
        status: TransferStatus,
    )
        ensures
            final(self)@ == old(self)@.ended(TransferKey::Group { direction, group_id }, status),
    {
        self.mark(TransferKey::Group { direction, group_id }, status);
    }

    fn update_detail_for_transfer(&mut self, transfer_id: u64, detail: String)
        ensures
            final(self)@ == old(self)@.explained(transfer_id, detail@),
    {
        let ghost text = detail@;
        let mut i: usize = 0;
        while i < self.entries.len()
            invariant
                i <= self.entries@.len(),
                *self == *old(self),
                text == detail@,
                forall|j: int|
                    #![trigger self@.entries[j]]
                    0 <= j < i ==> !is_transfer(self@.entries[j].key, transfer_id),
            decreases self.entries.len() - i,
        {
            proof {
                assert(self@.entries[i as int] == self.entries@[i as int]@);
            }
            let found = match self.entries[i].key {
                TransferKey::Transfer { transfer_id: id, .. } => id == transfer_id,
                TransferKey::Group { .. } => false,
            };
            if found {
                proof {
                    lemma_any_row_at(self@.entries, transfer_id, i as int);
                }
                self.entries[i].snapshot.detail = detail;
                proof {
                    assert(self@.entries =~= old(self)@.explained(transfer_id, text).entries);
                }
                return;
            }
            i += 1;
        }
        proof {
            lemma_any_row_at(self@.entries, transfer_id, i as int);
        }
    }

    fn next_seq(&mut self) -> (r: u64)
        ensures
            r == ticked(old(self)@.seq),
            final(self)@ == (Center { seq: r, ..old(self)@ }),
            final(self).entries == old(self).entries,
            final(self).child_progress == old(self).child_progress,
    {
        self.seq = self.seq.saturating_add(1);
        self.seq
    }
}

fn files_text(count: u32) -> (r: String)
    ensures
        r@ == decimal(count as nat) + " files"@,
{
    let mut r = String::new();
    push_decimal(&mut r, count as u64);
    r.append(" files");
    proof {
        assert(r@ =~= decimal(count as nat) + " files"@);
    }
    r
}

/// Every event keeps the list in order: one row for each key, no change later than the clock, and a
/// row that can be cancelled exactly while it runs.
pub proof fn events_keep_list_in_order(center: Center, event: FileTransferEvent)
    requires
        center.wf(),
    ensures
        center.after(event).wf(),
{
    match event {
        FileTransferEvent::OutgoingGroupStarted { group_id, .. } => {
            lemma_row_of(
                center.entries,
                TransferKey::Group { direction: TransferDirection::Outgoing, group_id },
            );
        },
        FileTransferEvent::OutgoingStarted { transfer_id, .. } => {
            lemma_row_of(
                center.entries,
                TransferKey::Transfer { direction: TransferDirection::Outgoing, transfer_id },
            );
        },
        FileTransferEvent::OutgoingProgress { transfer_id, .. } => {
            lemma_progress_keeps_order(center, TransferDirection::Outgoing, transfer_id);
        },
        FileTransferEvent::OutgoingCompleted { transfer_id, group, .. } => {
            lemma_row_of(center.entries, end_key(TransferDirection::Outgoing, transfer_id, group));
        },
        FileTransferEvent::OutgoingGroupCompleted { group_id, .. } => {
            lemma_row_of(
                center.entries,
                TransferKey::Group { direction: TransferDirection::Outgoing, group_id },
            );
        },
        FileTransferEvent::OutgoingCancelled { transfer_id, group, .. } => {
            lemma_row_of(center.entries, end_key(TransferDirection::Outgoing, transfer_id, group));
        },
        FileTransferEvent::OutgoingGroupCancelled { group_id } => {
            lemma_row_of(
                center.entries,
                TransferKey::Group { direction: TransferDirection::Outgoing, group_id },
            );
        },
        FileTransferEvent::IncomingStarted { transfer_id, group, .. } => {
            lemma_row_of(center.entries, end_key(TransferDirection::Incoming, transfer_id, group));
        },
        FileTransferEvent::IncomingProgress { transfer_id, .. } => {
            lemma_progress_keeps_order(center, TransferDirection::Incoming, transfer_id);
        },
        FileTransferEvent::IncomingCompleted { transfer_id, group, .. } => {
            lemma_progress_keeps_order(center, TransferDirection::Incoming, transfer_id);
            lemma_row_of(
                center.entries,
                TransferKey::Transfer { direction: TransferDirection::Incoming, transfer_id },
            );
        },
        FileTransferEvent::IncomingGroupCompleted { group_id, .. } => {
            lemma_row_of(
                center.entries,
                TransferKey::Group { direction: TransferDirection::Incoming, group_id },
            );
        },
        FileTransferEvent::IncomingCancelled { transfer_id, group, .. } => {
            lemma_row_of(center.entries, end_key(TransferDirection::Incoming, transfer_id, group));
        },
        FileTransferEvent::IncomingGroupCancelled { group_id } => {
            lemma_row_of(
                center.entries,
                TransferKey::Group { direction: TransferDirection::Incoming, group_id },
            );
        },
        FileTransferEvent::Error { transfer_id, .. } => {
            if transfer_id is Some {
                let key = TransferKey::Transfer {
                    direction: TransferDirection::Outgoing,
                    transfer_id: transfer_id->0,
                };
                lemma_row_of(center.entries, key);
                let ended = center.ended(key, TransferStatus::Error);
                lemma_any_row_of(ended.entries, transfer_id->0);
            }
        },
        FileTransferEvent::IncomingClipboardReady { .. } => {},
    }
}

proof fn lemma_progress_keeps_order(
    center: Center,
    direction: TransferDirection,
    transfer_id: u64,
)
    requires
        center.wf(),
    ensures
        forall|transferred: u64, total: u64|
            (#[trigger] center.progressed(direction, transfer_id, transferred, total)).wf(),
{
    lemma_row_of(center.entries, TransferKey::Transfer { direction, transfer_id });
    match center.group_of(direction, transfer_id) {
        Some(group_id) => {
            lemma_row_of(center.entries, TransferKey::Group { direction, group_id });
        },
        None => {},
    }
}

/// The rows shown are the rows of the list, each once, and the newest come first.
pub proof fn shown_rows_are_the_list_newest_first(entries: Seq<Entry>)
    ensures
        newest_first(entries).to_multiset() == entries.to_multiset(),
        forall|i: int, j: int|
            #![trigger newest_first(entries)[i], newest_first(entries)[j]]
            0 <= i < j < newest_first(entries).len() ==> newest_first(entries)[i].updated_seq
                >= newest_first(entries)[j].updated_seq,
    decreases entries.len(),
{
    broadcast use vstd::seq_lib::group_to_multiset_ensures;

    if entries.len() > 0 {
        let init = entries.drop_last();
        shown_rows_are_the_list_newest_first(init);
        lemma_insert_newest(newest_first(init), entries.last());
        assert(entries =~= init.push(entries.last()));
    }
}

proof fn lemma_insert_newest(sorted: Seq<Entry>, entry: Entry)
    requires
        forall|i: int, j: int|
            #![trigger sorted[i], sorted[j]]
            0 <= i < j < sorted.len() ==> sorted[i].updated_seq >= sorted[j].updated_seq,
    ensures
        insert_newest(sorted, entry).len() == sorted.len() + 1,
        insert_newest(sorted, entry).to_multiset() == sorted.to_multiset().insert(entry),
        forall|i: int, j: int|
            #![trigger insert_newest(sorted, entry)[i], insert_newest(sorted, entry)[j]]
            0 <= i < j < insert_newest(sorted, entry).len() ==> insert_newest(
                sorted,
                entry,
            )[i].updated_seq >= insert_newest(sorted, entry)[j].updated_seq,
        forall|i: int|
            #![trigger insert_newest(sorted, entry)[i]]
            0 <= i < insert_newest(sorted, entry).len() ==> insert_newest(sorted, entry)[i] == entry
                || sorted.contains(insert_newest(sorted, entry)[i]),
    decreases sorted.len(),
{
    broadcast use vstd::seq_lib::group_to_multiset_ensures;

    if sorted.len() == 0 || sorted.last().updated_seq >= entry.updated_seq {
        let r = sorted.push(entry);
        assert forall|i: int| #![trigger r[i]] 0 <= i < r.len() implies r[i] == entry
            || sorted.contains(r[i]) by {
            if i < sorted.len() {
                assert(r[i] == sorted[i]);
            }
        }
    } else {
        let init = sorted.drop_last();
        lemma_insert_newest(init, entry);
        assert(sorted =~= init.push(sorted.last()));
        let inner = insert_newest(init, entry);
        let r = inner.push(sorted.last());
        assert(r == insert_newest(sorted, entry));
        assert(r.to_multiset() =~= sorted.to_multiset().insert(entry));
        assert forall|i: int| #![trigger r[i]] 0 <= i < r.len() implies r[i] == entry
            || sorted.contains(r[i]) by {
            if i < inner.len() {
                assert(r[i] == inner[i]);
                if r[i] != entry {
                    let k = init.index_of(inner[i]);
                    assert(sorted[k] == r[i]);
                }
            } else {
                assert(r[i] == sorted[sorted.len() - 1]);
            }
        }
        assert forall|i: int, j: int|
            #![trigger r[i], r[j]]
            0 <= i < j < r.len() implies r[i].updated_seq >= r[j].updated_seq by {
            if j < inner.len() {
                assert(r[i] == inner[i] && r[j] == inner[j]);
            } else {
                assert(r[i] == inner[i]);
                if inner[i] != entry {
                    let k = init.index_of(inner[i]);
                    assert(sorted[k] == inner[i]);
                    assert(sorted[k].updated_seq >= sorted[sorted.len() - 1].updated_seq);
                }
            }
        }
    }
}

/// The rows of other keys.
pub open spec fn others(entries: Seq<Entry>, key: TransferKey) -> Seq<Entry> {
    entries.filter(|e: Entry| e.key != key)
}

/// No two rows share a key.
pub open spec fn keys_apart(entries: Seq<Entry>) -> bool {
    forall|i: int, j: int|
        #![trigger entries[i], entries[j]]
        0 <= i < j < entries.len() ==> entries[i].key != entries[j].key
}

/// The newest come first.
pub open spec fn falling(entries: Seq<Entry>) -> bool {
    forall|i: int, j: int|
        #![trigger entries[i], entries[j]]
        0 <= i < j < entries.len() ==> entries[i].updated_seq >= entries[j].updated_seq
}

proof fn lemma_others_push(entries: Seq<Entry>, entry: Entry, key: TransferKey)
    ensures
        others(entries.push(entry), key) == (if entry.key != key {
            others(entries, key).push(entry)
        } else {
            others(entries, key)
        }),
{
    reveal(Seq::filter);
    assert(entries.push(entry).drop_last() =~= entries);
}

/// Whatever is left of rows was there before, in their order.
proof fn lemma_others_kept(entries: Seq<Entry>, key: TransferKey)
    ensures
        others(entries, key).len() <= entries.len(),
        forall|i: int|
            #![trigger others(entries, key)[i]]
            0 <= i < others(entries, key).len() ==> entries.contains(others(entries, key)[i]),
        falling(entries) ==> falling(others(entries, key)),
        others(entries, key).len() == entries.len() ==> others(entries, key) == entries,
    decreases entries.len(),
{
    if entries.len() == 0 {
        reveal(Seq::filter);
        assert(others(entries, key) =~= entries);
    } else {
        let init = entries.drop_last();
        let last = entries.last();
        let kept = others(entries, key);
        let before = others(init, key);
        assert(entries =~= init.push(last));
        lemma_others_push(init, last, key);
        lemma_others_kept(init, key);
        assert forall|i: int| #![trigger kept[i]] 0 <= i < kept.len() implies entries.contains(
            kept[i],
        ) by {
            if i < before.len() {
                assert(kept[i] == before[i]);
                let j = init.index_of(before[i]);
                assert(entries[j] == before[i]);
            } else {
                assert(entries[entries.len() - 1] == kept[i]);
            }
        }
        if falling(entries) {
            assert(falling(init)) by {
                assert forall|i: int, j: int|
                    #![trigger init[i], init[j]]
                    0 <= i < j < init.len() implies init[i].updated_seq
                    >= init[j].updated_seq by {
                    assert(entries[i] == init[i] && entries[j] == init[j]);
                }
            }
            assert forall|i: int, j: int|
                #![trigger kept[i], kept[j]]
                0 <= i < j < kept.len() implies kept[i].updated_seq >= kept[j].updated_seq by {
                assert(kept[i] == before[i]);
                if j < before.len() {
                    assert(kept[j] == before[j]);
                } else {
                    assert(init.contains(before[i]));
                    let k = init.index_of(before[i]);
                    assert(entries[k] == before[i]);
                    assert(entries[entries.len() - 1] == last);
                }
            }
        }
        if kept.len() == entries.len() {
            assert(kept =~= entries);
        }
    }
}

/// Sorting a row in and leaving rows out go together.
proof fn lemma_insert_others(sorted: Seq<Entry>, entry: Entry, key: TransferKey)
    requires
        falling(sorted),
    ensures
        others(insert_newest(sorted, entry), key) == (if entry.key != key {
            insert_newest(others(sorted, key), entry)
        } else {
            others(sorted, key)
        }),
    decreases sorted.len(),
{
    lemma_others_kept(sorted, key);
    if sorted.len() == 0 || sorted.last().updated_seq >= entry.updated_seq {
        lemma_others_push(sorted, entry, key);
        let kept = others(sorted, key);
        if kept.len() > 0 {
            assert(sorted.contains(kept[kept.len() - 1]));
            let k = sorted.index_of(kept.last());
            assert(sorted[k] == kept.last());
            assert(sorted[sorted.len() - 1] == sorted.last());
        }
    } else {
        let init = sorted.drop_last();
        let last = sorted.last();
        assert(sorted =~= init.push(last));
        assert forall|i: int, j: int|
            #![trigger init[i], init[j]]
            0 <= i < j < init.len() implies init[i].updated_seq >= init[j].updated_seq by {
            assert(sorted[i] == init[i] && sorted[j] == init[j]);
        }
        lemma_insert_others(init, entry, key);
        lemma_others_push(init, last, key);
        lemma_others_push(insert_newest(init, entry), last, key);
        if last.key != key {
            assert(others(sorted, key).drop_last() =~= others(init, key));
        }
    }
}

/// Sorting and leaving rows out go together.
proof fn lemma_newest_others(entries: Seq<Entry>, key: TransferKey)
    ensures
        others(newest_first(entries), key) == newest_first(others(entries, key)),
        newest_first(entries).len() == entries.len(),
        falling(newest_first(entries)),
    decreases entries.len(),
{
    shown_rows_are_the_list_newest_first(entries);
    if entries.len() == 0 {
        reveal(Seq::filter);
        assert(others(entries, key) =~= entries);
    } else {
        let init = entries.drop_last();
        let last = entries.last();
        assert(entries =~= init.push(last));
        lemma_newest_others(init, key);
        lemma_insert_newest(newest_first(init), last);
        lemma_insert_others(newest_first(init), last, key);
        lemma_others_push(init, last, key);
        if last.key != key {
            assert(others(entries, key).drop_last() =~= others(init, key));
        }
    }
}

/// The rows of other keys are the same when the row of one key is opened or overwritten, and they are
/// all the rows but that one.
proof fn lemma_others_untouched(before: Seq<Entry>, after: Seq<Entry>, at: int, entry: Entry)
    requires
        keys_apart(before),
        0 <= at <= before.len(),
        forall|i: int|
            #![trigger before[i]]
            0 <= i < before.len() && i != at ==> before[i].key != entry.key,
        at < before.len() ==> before[at].key == entry.key && after == before.update(at, entry),
        at == before.len() ==> after == before.push(entry),
    ensures
        others(after, entry.key) == others(before, entry.key),
        others(after, entry.key).len() == after.len() - 1,
    decreases before.len(),
{
    let key = entry.key;
    if at == before.len() {
        lemma_others_push(before, entry, key);
        lemma_all_others(before, key);
    } else {
        let init = before.drop_last();
        let last = before.last();
        assert(before =~= init.push(last));
        if at == before.len() - 1 {
            assert(after =~= init.push(entry));
            lemma_others_push(init, last, key);
            lemma_others_push(init, entry, key);
            assert forall|i: int| #![trigger init[i]] 0 <= i < init.len() implies init[i].key
                != key by {
                assert(before[i] == init[i]);
            }
            lemma_all_others(init, key);
        } else {
            assert(after =~= init.update(at, entry).push(last));
            assert forall|i: int, j: int|
                #![trigger init[i], init[j]]
                0 <= i < j < init.len() implies init[i].key != init[j].key by {
                assert(before[i] == init[i] && before[j] == init[j]);
            }
            assert forall|i: int|
                #![trigger init[i]]
                0 <= i < init.len() && i != at implies init[i].key != key by {
                assert(before[i] == init[i]);
            }
            assert(init[at] == before[at]);
            assert(before[before.len() - 1] == last);
            lemma_others_untouched(init, init.update(at, entry), at, entry);
            lemma_others_push(init, last, key);
            lemma_others_push(init.update(at, entry), last, key);
        }
    }
}

proof fn lemma_all_others(entries: Seq<Entry>, key: TransferKey)
    requires
        forall|i: int| #![trigger entries[i]] 0 <= i < entries.len() ==> entries[i].key != key,
    ensures
        others(entries, key) == entries,
    decreases entries.len(),
{
    if entries.len() == 0 {
        reveal(Seq::filter);
        assert(others(entries, key) =~= entries);
    } else {
        let init = entries.drop_last();
        assert(entries =~= init.push(entries.last()));
        assert forall|i: int| #![trigger init[i]] 0 <= i < init.len() implies init[i].key
            != key by {
            assert(entries[i] == init[i]);
        }
        assert(entries[entries.len() - 1] == entries.last());
        lemma_all_others(init, key);
        lemma_others_push(init, entries.last(), key);
    }
}

/// A row that is newer than all others is shown before them.
proof fn lemma_newest_is_first(before: Seq<Entry>, after: Seq<Entry>, entry: Entry)
    requires
        keys_apart(before),
        forall|i: int|
            #![trigger before[i]]
            0 <= i < before.len() ==> before[i].updated_seq < entry.updated_seq,
        after == (if row_of(before, entry.key) < before.len() {
            before.update(row_of(before, entry.key), entry)
        } else {
            before.push(entry)
        }),
    ensures
        newest_first(after) == seq![entry] + others(newest_first(before), entry.key),
{
    broadcast use vstd::seq_lib::group_to_multiset_ensures;

    let key = entry.key;
    let at = row_of(before, key);
    lemma_row_of(before, key);
    assert forall|i: int| #![trigger before[i]] 0 <= i < before.len() && i != at implies before[i].key
        != key by {
        if at < i {
            assert(before[at].key != before[i].key);
        }
    }
    lemma_others_untouched(before, after, at, entry);
    lemma_newest_others(before, key);
    lemma_newest_others(after, key);
    shown_rows_are_the_list_newest_first(after);
    let now = newest_first(after);
    assert(after[at] == entry);
    assert(after.contains(entry));
    assert(now.to_multiset().count(entry) > 0);
    assert(now.contains(entry));
    let k = now.index_of(entry);
    assert(now[k] == entry);
    let first = now[0];
    assert(now.contains(first));
    assert(after.to_multiset().count(first) > 0);
    assert(after.contains(first));
    let m = after.index_of(first);
    assert(after[m] == first);
    assert(first.updated_seq >= entry.updated_seq) by {
        if k > 0 {
            assert(now[0].updated_seq >= now[k].updated_seq);
        }
    }
    if m != at {
        assert(after[m] == before[m]);
    }
    assert(first == entry);
    let rest = now.drop_first();
    assert(now =~= seq![entry] + rest);
    lemma_others_behind(entry, rest, key);
    lemma_others_kept(rest, key);
    lemma_newest_others(others(before, key), key);
    assert(others(rest, key) == others(newest_first(before), key));
    assert(others(rest, key).len() == rest.len());
}

proof fn lemma_others_behind(first: Entry, rest: Seq<Entry>, key: TransferKey)
    requires
        first.key == key,
    ensures
        others(seq![first] + rest, key) == others(rest, key),
    decreases rest.len(),
{
    if rest.len() == 0 {
        assert(seq![first] + rest =~= Seq::<Entry>::empty().push(first));
        lemma_others_push(Seq::empty(), first, key);
        assert(rest =~= Seq::<Entry>::empty());
    } else {
        let init = rest.drop_last();
        assert(rest =~= init.push(rest.last()));
        assert(seq![first] + rest =~= (seq![first] + init).push(rest.last()));
        lemma_others_behind(first, init, key);
        lemma_others_push(seq![first] + init, rest.last(), key);
        lemma_others_push(init, rest.last(), key);
    }
}

/// The row that an event opens or changes is shown first, and the other rows follow it as they were
/// and in the order in which they were. An event that opens and changes none leaves all as it was.
/// This holds while the clock runs. An error also puts its text into the first row of that number,
/// which may be that of a file that comes in.
pub proof fn touched_row_is_shown_first(center: Center, event: FileTransferEvent)
    requires
        center.wf(),
        center.seq < u64::MAX,
        !(event is Error),
    ensures
        ({
            let before = newest_first(center.entries);
            let after = center.after(event);
            let now = newest_first(after.entries);
            match center.touched(event) {
                Some(key) => {
                    let at = row_of(after.entries, key);
                    if at < after.entries.len() {
                        now == seq![after.entries[at]] + others(before, key)
                    } else {
                        now == before
                    }
                },
                None => now == before,
            }
        }),
{
    let after = center.after(event);
    match center.touched(event) {
        Some(key) => {
            let at = row_of(center.entries, key);
            lemma_row_of(center.entries, key);
            lemma_row_of(after.entries, key);
            if at < after.entries.len() {
                assert(after.entries[at].key == key);
                assert forall|i: int| #![trigger after.entries[i]] 0 <= i < at implies after.entries[
                    i
                ].key != key by {
                    assert(after.entries[i] == center.entries[i]);
                }
                lemma_row_at(after.entries, key, at);
                let entry = after.entries[at];
                if at < center.entries.len() {
                    assert(after.entries =~= center.entries.update(at, entry));
                } else {
                    assert(after.entries =~= center.entries.push(entry));
                }
                lemma_newest_is_first(center.entries, after.entries, entry);
            } else {
                assert(after.entries =~= center.entries);
            }
        },
        None => {
            assert(after.entries =~= center.entries);
        },
    }
}

/// The same rows in the same places, up to what they show.
pub open spec fn alike(a: Seq<Entry>, b: Seq<Entry>) -> bool {
    &&& a.len() == b.len()
    &&& forall|i: int|
        #![trigger a[i]]
        #![trigger b[i]]
        0 <= i < a.len() ==> a[i].key == b[i].key && a[i].updated_seq == b[i].updated_seq
}

proof fn lemma_insert_alike(a: Seq<Entry>, b: Seq<Entry>, x: Entry, y: Entry)
    requires
        alike(a, b),
        x.key == y.key,
        x.updated_seq == y.updated_seq,
    ensures
        alike(insert_newest(a, x), insert_newest(b, y)),
    decreases a.len(),
{
    if a.len() > 0 {
        assert(a[a.len() - 1].updated_seq == b[b.len() - 1].updated_seq);
        if a.last().updated_seq < x.updated_seq {
            assert forall|i: int|
                #![trigger a.drop_last()[i]]
                #![trigger b.drop_last()[i]]
                0 <= i < a.drop_last().len() implies a.drop_last()[i].key == b.drop_last()[i].key
                && a.drop_last()[i].updated_seq == b.drop_last()[i].updated_seq by {
                assert(a.drop_last()[i] == a[i] && b.drop_last()[i] == b[i]);
            }
            lemma_insert_alike(a.drop_last(), b.drop_last(), x, y);
        }
    }
}

proof fn lemma_newest_alike(a: Seq<Entry>, b: Seq<Entry>)
    requires
        alike(a, b),
    ensures
        alike(newest_first(a), newest_first(b)),
    decreases a.len(),
{
    if a.len() > 0 {
        assert(alike(a.drop_last(), b.drop_last())) by {
            assert forall|i: int|
                #![trigger a.drop_last()[i]]
                #![trigger b.drop_last()[i]]
                0 <= i < a.drop_last().len() implies a.drop_last()[i].key == b.drop_last()[i].key
                && a.drop_last()[i].updated_seq == b.drop_last()[i].updated_seq by {
                assert(a.drop_last()[i] == a[i] && b.drop_last()[i] == b[i]);
            }
        }
        lemma_newest_alike(a.drop_last(), b.drop_last());
        assert(a[a.len() - 1].key == b[b.len() - 1].key);
        lemma_insert_alike(
            newest_first(a.drop_last()),
            newest_first(b.drop_last()),
            a.last(),
            b.last(),
        );
    }
}

/// An error moves rows as other events do: the row of the file that goes out under that number is
/// shown first, and the others follow it in the order in which they were.
pub proof fn failed_row_is_shown_first(center: Center, transfer_id: u64, message: String)
    requires
        center.wf(),
        center.seq < u64::MAX,
    ensures
        ({
            let event = FileTransferEvent::Error { transfer_id: Some(transfer_id), message };
            let key = TransferKey::Transfer { direction: TransferDirection::Outgoing, transfer_id };
            let failed = center.ended(key, TransferStatus::Error).entries;
            let before = newest_first(center.entries);
            let now = newest_first(center.after(event).entries);
            let at = row_of(center.entries, key);
            if at < center.entries.len() {
                alike(now, seq![failed[at]] + others(before, key))
            } else {
                alike(now, before)
            }
        }),
{
    let key = TransferKey::Transfer { direction: TransferDirection::Outgoing, transfer_id };
    let ended = center.ended(key, TransferStatus::Error);
    let told = ended.explained(transfer_id, message@);
    let at = row_of(center.entries, key);
    lemma_row_of(center.entries, key);
    lemma_any_row_of(ended.entries, transfer_id);
    assert(alike(told.entries, ended.entries));
    lemma_newest_alike(told.entries, ended.entries);
    if at < center.entries.len() {
        lemma_newest_is_first(center.entries, ended.entries, ended.entries[at]);
    } else {
        assert(ended.entries =~= center.entries);
    }
}

/// Each key has at most one row that is shown.
pub proof fn shown_rows_have_keys_of_their_own(entries: Seq<Entry>)
    requires
        keys_apart(entries),
    ensures
        keys_apart(newest_first(entries)),
    decreases entries.len(),
{
    if entries.len() > 0 {
        let init = entries.drop_last();
        let last = entries.last();
        assert forall|i: int, j: int|
            #![trigger init[i], init[j]]
            0 <= i < j < init.len() implies init[i].key != init[j].key by {
            assert(entries[i] == init[i] && entries[j] == init[j]);
        }
        shown_rows_have_keys_of_their_own(init);
        let sorted = newest_first(init);
        assert forall|i: int| #![trigger sorted[i]] 0 <= i < sorted.len() implies sorted[i].key
            != last.key by {
            lemma_shown_is_there(init, i);
            let k = init.index_of(sorted[i]);
            assert(entries[k] == init[k]);
            assert(entries[entries.len() - 1] == last);
        }
        lemma_insert_keeps_apart(sorted, last);
    }
}

proof fn lemma_shown_is_there(entries: Seq<Entry>, i: int)
    requires
        0 <= i < newest_first(entries).len(),
    ensures
        entries.contains(newest_first(entries)[i]),
{
    broadcast use vstd::seq_lib::group_to_multiset_ensures;

    shown_rows_are_the_list_newest_first(entries);
    let e = newest_first(entries)[i];
    assert(newest_first(entries).contains(e));
    assert(entries.to_multiset().count(e) > 0);
}

proof fn lemma_insert_keeps_apart(sorted: Seq<Entry>, entry: Entry)
    requires
        keys_apart(sorted),
        forall|i: int| #![trigger sorted[i]] 0 <= i < sorted.len() ==> sorted[i].key != entry.key,
    ensures
        keys_apart(insert_newest(sorted, entry)),
        forall|i: int|
            #![trigger insert_newest(sorted, entry)[i]]
            0 <= i < insert_newest(sorted, entry).len() ==> insert_newest(sorted, entry)[i] == entry
                || sorted.contains(insert_newest(sorted, entry)[i]),
    decreases sorted.len(),
{
    let r = insert_newest(sorted, entry);
    if sorted.len() == 0 || sorted.last().updated_seq >= entry.updated_seq {
        assert forall|i: int| #![trigger r[i]] 0 <= i < r.len() implies r[i] == entry
            || sorted.contains(r[i]) by {
            if i < sorted.len() {
                assert(r[i] == sorted[i]);
            }
        }
        assert forall|i: int, j: int| #![trigger r[i], r[j]] 0 <= i < j < r.len() implies r[i].key
            != r[j].key by {
            assert(r[i] == sorted[i]);
            if j < sorted.len() {
                assert(r[j] == sorted[j]);
            }
        }
    } else {
        let init = sorted.drop_last();
        let last = sorted.last();
        assert forall|i: int, j: int|
            #![trigger init[i], init[j]]
            0 <= i < j < init.len() implies init[i].key != init[j].key by {
            assert(sorted[i] == init[i] && sorted[j] == init[j]);
        }
        assert forall|i: int| #![trigger init[i]] 0 <= i < init.len() implies init[i].key
            != entry.key by {
            assert(sorted[i] == init[i]);
        }
        lemma_insert_keeps_apart(init, entry);
        let inner = insert_newest(init, entry);
        assert(sorted[sorted.len() - 1] == last);
        assert forall|i: int| #![trigger r[i]] 0 <= i < r.len() implies r[i] == entry
            || sorted.contains(r[i]) by {
            if i < inner.len() {
                assert(r[i] == inner[i]);
                if inner[i] != entry {
                    let k = init.index_of(inner[i]);
                    assert(sorted[k] == inner[i]);
                }
            }
        }
        assert forall|i: int, j: int| #![trigger r[i], r[j]] 0 <= i < j < r.len() implies r[i].key
            != r[j].key by {
            assert(r[i] == inner[i]);
            if j < inner.len() {
                assert(r[j] == inner[j]);
            } else if inner[i] != entry {
                let k = init.index_of(inner[i]);
                assert(sorted[k] == inner[i]);
            }
        }
    }
}

/// The row that an event ends, and how. Where a file comes in as a part of a group, its group goes on.
pub open spec fn ending(event: FileTransferEvent) -> Option<(TransferKey, TransferStatus)> {
    let out = TransferDirection::Outgoing;
    let inc = TransferDirection::Incoming;
    match event {
        FileTransferEvent::OutgoingCompleted { transfer_id, group: None, .. } => Some(
            (
                TransferKey::Transfer { direction: out, transfer_id },
                TransferStatus::Completed,
            ),
        ),
        FileTransferEvent::OutgoingCompleted { group: Some(group), .. } => Some(
            (
                TransferKey::Group { direction: out, group_id: group.group_id },
                TransferStatus::Completed,
            ),
        ),
        FileTransferEvent::OutgoingGroupCompleted { group_id, .. } => Some(
            (TransferKey::Group { direction: out, group_id }, TransferStatus::Completed),
        ),
        FileTransferEvent::IncomingCompleted { transfer_id, group: None, .. } => Some(
            (
                TransferKey::Transfer { direction: inc, transfer_id },
                TransferStatus::Completed,
            ),
        ),
        FileTransferEvent::IncomingGroupCompleted { group_id, .. } => Some(
            (TransferKey::Group { direction: inc, group_id }, TransferStatus::Completed),
        ),
        FileTransferEvent::OutgoingCancelled { transfer_id, group: None, .. } => Some(
            (
                TransferKey::Transfer { direction: out, transfer_id },
                TransferStatus::Cancelled,
            ),
        ),
        FileTransferEvent::OutgoingCancelled { group: Some(group), .. } => Some(
            (
                TransferKey::Group { direction: out, group_id: group.group_id },
                TransferStatus::Cancelled,
            ),
        ),
        FileTransferEvent::OutgoingGroupCancelled { group_id } => Some(
            (TransferKey::Group { direction: out, group_id }, TransferStatus::Cancelled),
        ),
        FileTransferEvent::IncomingCancelled { transfer_id, group: None, .. } => Some(
            (
                TransferKey::Transfer { direction: inc, transfer_id },
                TransferStatus::Cancelled,
            ),
        ),
        FileTransferEvent::IncomingCancelled { group: Some(group), .. } => Some(
            (
                TransferKey::Group { direction: inc, group_id: group.group_id },
                TransferStatus::Cancelled,
            ),
        ),
        FileTransferEvent::IncomingGroupCancelled { group_id } => Some(
            (TransferKey::Group { direction: inc, group_id }, TransferStatus::Cancelled),
        ),
        _ => None,
    }
}

/// All rows but the one at `at` are as they were, and in their places.
pub open spec fn other_rows_kept(before: Center, after: Center, at: int) -> bool {
    &&& after.entries.len() >= before.entries.len()
    &&& forall|i: int|
        0 <= i < before.entries.len() && i != at ==> #[trigger] after.entries[i]
            == before.entries[i]
}

/// A transfer that is over is complete, with all its bytes, after the events that complete it, and
/// is cancelled, with the bytes that it had, after those that cancel it. It cannot be cancelled any
/// more, and every other row is as it was. An event for a row that is not there changes no row.
pub proof fn ended_transfers_show_how_they_ended(
    center: Center,
    event: FileTransferEvent,
    at: int,
)
    requires
        center.wf(),
        ending(event) is Some,
        0 <= at < center.entries.len(),
    ensures
        ({
            let after = center.after(event);
            let key = (ending(event)->0).0;
            let status = (ending(event)->0).1;
            let old_row = center.entries[at].row;
            let new_row = after.entries[at].row;
            &&& after.entries.len() == center.entries.len()
            &&& after.children == center.children
            &&& after.entries[at].key == center.entries[at].key
            &&& center.entries[at].key != key ==> after.entries[at] == center.entries[at]
            &&& center.entries[at].key == key ==> {
                &&& new_row.status == status
                &&& new_row.cancel_target is None
                &&& new_row.total_bytes == old_row.total_bytes
                &&& status == TransferStatus::Completed ==> new_row.transferred_bytes
                    == new_row.total_bytes
                &&& status == TransferStatus::Cancelled ==> new_row.transferred_bytes
                    == old_row.transferred_bytes
                &&& new_row.direction == old_row.direction
                &&& new_row.label == old_row.label
                &&& new_row.detail == old_row.detail
                &&& other_rows_kept(center, after, at)
            }
        }),
{
    let key = (ending(event)->0).0;
    lemma_row_of(center.entries, key);
    if center.entries[at].key == key {
        lemma_row_at(center.entries, key, at);
    }
}

/// An error ends the row of a file that is sent by itself, and the first row of that transfer, in
/// either direction, tells why. An error of nobody changes nothing.
pub proof fn failed_transfers_tell_why(center: Center, event: FileTransferEvent, at: int)
    requires
        center.wf(),
        event is Error,
        0 <= at < center.entries.len(),
    ensures
        ({
            let after = center.after(event);
            let old_row = center.entries[at].row;
            let new_row = after.entries[at].row;
            let id = event->Error_transfer_id->0;
            let own = TransferKey::Transfer {
                direction: TransferDirection::Outgoing,
                transfer_id: id,
            };
            let of_transfer = |i: int|
                center.entries[i].key is Transfer && center.entries[i].key->Transfer_transfer_id
                    == id;
            &&& after.entries.len() == center.entries.len()
            &&& after.children == center.children
            &&& after.entries[at].key == center.entries[at].key
            &&& event->Error_transfer_id is None ==> after == center
            &&& event->Error_transfer_id is Some ==> {
                &&& center.entries[at].key == own ==> {
                    &&& new_row.status == TransferStatus::Error
                    &&& new_row.cancel_target is None
                }
                &&& center.entries[at].key != own ==> {
                    &&& new_row.status == old_row.status
                    &&& new_row.cancel_target == old_row.cancel_target
                }
                &&& of_transfer(at) && (forall|i: int|
                    #![trigger center.entries[i]]
                    0 <= i < at ==> !of_transfer(i)) ==> new_row.detail
                    == event->Error_message@
                &&& !of_transfer(at) ==> after.entries[at] == center.entries[at]
                &&& of_transfer(at) && (exists|i: int|
                    #![trigger center.entries[i]]
                    0 <= i < at && of_transfer(i)) ==> new_row.detail == old_row.detail
                &&& new_row.transferred_bytes == old_row.transferred_bytes
                &&& new_row.total_bytes == old_row.total_bytes
                &&& new_row.label == old_row.label
                &&& new_row.direction == old_row.direction
            }
        }),
{
    if event->Error_transfer_id is Some {
        let id = event->Error_transfer_id->0;
        let key = TransferKey::Transfer { direction: TransferDirection::Outgoing, transfer_id: id };
        lemma_row_of(center.entries, key);
        let middle = center.ended(key, TransferStatus::Error);
        if center.entries[at].key == key {
            lemma_row_at(center.entries, key, at);
        }
        assert forall|i: int| 0 <= i < center.entries.len() implies #[trigger] middle.entries[i].key
            == center.entries[i].key by {}
        lemma_any_row_of(middle.entries, id);
        let first = any_row_of(middle.entries, id);
        if is_transfer(center.entries[at].key, id) {
            assert(is_transfer(middle.entries[at].key, id));
            if forall|i: int|
                #![trigger center.entries[i]]
                0 <= i < at ==> !is_transfer(center.entries[i].key, id) {
                if first < at {
                    assert(is_transfer(middle.entries[first].key, id));
                    assert(is_transfer(center.entries[first].key, id));
                }
                assert(first == at);
            } else {
                let i = choose|i: int|
                    #![trigger center.entries[i]]
                    0 <= i < at && is_transfer(center.entries[i].key, id);
                assert(is_transfer(middle.entries[i].key, id));
                assert(first <= i);
            }
        }
    }
}

/// A row shows a transfer that has just started, whatever it showed before: nothing else is known of
/// it than what the event says.
pub open spec fn shows_start(
    entry: Entry,
    key: TransferKey,
    direction: TransferDirection,
    label: Seq<char>,
    detail: Seq<char>,
    total_bytes: u64,
    target: TransferCancelTarget,
) -> bool {
    &&& entry.key == key
    &&& entry.row.direction == direction
    &&& entry.row.label == label
    &&& entry.row.detail == detail
    &&& entry.row.total_bytes == total_bytes
    &&& entry.row.status == TransferStatus::Running
    &&& entry.row.cancel_target == Some(target)
}

/// The row of `key` is at `at`, or is to be put there as the last one.
pub open spec fn has_place(entries: Seq<Entry>, key: TransferKey, at: int) -> bool {
    &&& 0 <= at <= entries.len()
    &&& at < entries.len() ==> entries[at].key == key
    &&& at == entries.len() ==> forall|i: int|
        0 <= i < entries.len() ==> (#[trigger] entries[i]).key != key
}

/// A file that is sent by itself is shown from its start on, running, with none of its bytes, under
/// its own name; one that comes in shows where it goes. A group is shown with the number of its
/// files and the sum of what they have come to. There is one row for each, and every other row is as
/// it was.
pub proof fn started_transfers_are_shown(
    center: Center,
    event: FileTransferEvent,
    at: int,
)
    requires
        center.wf(),
    ensures
        ({
            let after = center.after(event);
            let entry = after.entries[at];
            let out = TransferDirection::Outgoing;
            let inc = TransferDirection::Incoming;
            let places = |key: TransferKey|
                has_place(center.entries, key, at) ==> {
                    &&& other_rows_kept(center, after, at)
                    &&& after.entries.len() == center.entries.len() + (if at
                        < center.entries.len() {
                        0int
                    } else {
                        1
                    })
                };
            match event {
                FileTransferEvent::OutgoingStarted {
                    transfer_id,
                    group: None,
                    name,
                    size_bytes,
                    ..
                } => {
                    let key = TransferKey::Transfer { direction: out, transfer_id };
                    &&& places(key)
                    &&& after.children == center.children
                    &&& has_place(center.entries, key, at) ==> entry.row.transferred_bytes == 0
                        && shows_start(
                        entry,
                        key,
                        out,
                        name@,
                        Seq::empty(),
                        size_bytes,
                        TransferCancelTarget::Transfer(transfer_id),
                    )
                },
                FileTransferEvent::OutgoingStarted { group: Some(_), .. } => after.entries
                    == center.entries,
                FileTransferEvent::IncomingStarted {
                    transfer_id,
                    group: None,
                    name,
                    size_bytes,
                    path,
                    ..
                } => {
                    let key = TransferKey::Transfer { direction: inc, transfer_id };
                    &&& places(key)
                    &&& after.children == center.children
                    &&& has_place(center.entries, key, at) ==> entry.row.transferred_bytes == 0
                        && shows_start(
                        entry,
                        key,
                        inc,
                        name@,
                        path@,
                        size_bytes,
                        TransferCancelTarget::Transfer(transfer_id),
                    )
                },
                FileTransferEvent::OutgoingGroupStarted {
                    group_id,
                    file_count,
                    total_size_bytes,
                } => {
                    let key = TransferKey::Group { direction: out, group_id };
                    &&& places(key)
                    &&& after.children == center.children
                    &&& has_place(center.entries, key, at) ==> entry.row.transferred_bytes
                        == group_bytes(center.children, out, group_id) as u64 && shows_start(
                        entry,
                        key,
                        out,
                        "Group #"@ + decimal(group_id as nat),
                        decimal(file_count as nat) + " files"@,
                        total_size_bytes,
                        TransferCancelTarget::Group(group_id),
                    )
                },
                FileTransferEvent::IncomingStarted { group: Some(group), .. } => {
                    let group_id = group.group_id;
                    let key = TransferKey::Group { direction: inc, group_id };
                    &&& places(key)
                    &&& has_place(center.entries, key, at) ==> entry.row.transferred_bytes
                        == group_bytes(center.children, inc, group_id) as u64 && shows_start(
                        entry,
                        key,
                        inc,
                        "Group #"@ + decimal(group_id as nat),
                        decimal(group.file_count as nat) + " files"@,
                        group.group_total_size_bytes,
                        TransferCancelTarget::Group(group_id),
                    )
                },
                _ => true,
            }
        }),
{
    let out = TransferDirection::Outgoing;
    let inc = TransferDirection::Incoming;
    match event {
        FileTransferEvent::OutgoingStarted { transfer_id, group: None, name, size_bytes, .. } => {
            let key = TransferKey::Transfer { direction: out, transfer_id };
            if has_place(center.entries, key, at) {
                lemma_row_at(center.entries, key, at);
            }
        },
        FileTransferEvent::IncomingStarted { transfer_id, group: None, .. } => {
            let key = TransferKey::Transfer { direction: inc, transfer_id };
            if has_place(center.entries, key, at) {
                lemma_row_at(center.entries, key, at);
            }
        },
        FileTransferEvent::OutgoingGroupStarted { group_id, .. } => {
            let key = TransferKey::Group { direction: out, group_id };
            if has_place(center.entries, key, at) {
                lemma_row_at(center.entries, key, at);
            }
        },
        FileTransferEvent::IncomingStarted { group: Some(group), .. } => {
            let key = TransferKey::Group { direction: inc, group_id: group.group_id };
            if has_place(center.entries, key, at) {
                lemma_row_at(center.entries, key, at);
            }
        },
        _ => {},
    }
}

/// Only the events that cancel a transfer leave it cancelled, only those that complete it leave it
/// complete, and only an error leaves it failed.
pub proof fn only_their_events_end_transfers(center: Center, event: FileTransferEvent, at: int)
    requires
        center.wf(),
        0 <= at < center.after(event).entries.len(),
    ensures
        ({
            let now = center.after(event).entries[at];
            let was = at < center.entries.len() && center.entries[at].key == now.key
                && center.entries[at].row.status == now.row.status;
            &&& now.row.status == TransferStatus::Cancelled ==> was || ((event is OutgoingCancelled
                || event is OutgoingGroupCancelled || event is IncomingCancelled
                || event is IncomingGroupCancelled) && ending(event) == Some(
                (now.key, TransferStatus::Cancelled),
            ))
            &&& now.row.status == TransferStatus::Completed ==> was || ((event is OutgoingCompleted
                || event is OutgoingGroupCompleted || event is IncomingCompleted
                || event is IncomingGroupCompleted) && ending(event) == Some(
                (now.key, TransferStatus::Completed),
            ))
            &&& now.row.status == TransferStatus::Error ==> was || event is Error
        }),
{
    match center.touched(event) {
        Some(key) => {
            lemma_row_of(center.entries, key);
        },
        None => {},
    }
    match event {
        FileTransferEvent::Error { transfer_id: Some(transfer_id), .. } => {
            let key = TransferKey::Transfer {
                direction: TransferDirection::Outgoing,
                transfer_id,
            };
            let middle = center.ended(key, TransferStatus::Error);
            lemma_any_row_of(middle.entries, transfer_id);
        },
        _ => {},
    }
}

/// The first file of that transfer is at `at`, or is to be put there as the last one.
pub open spec fn has_file_place(
    children: Seq<ChildProgress>,
    direction: TransferDirection,
    transfer_id: u64,
    at: int,
) -> bool {
    &&& 0 <= at <= children.len()
    &&& at < children.len() ==> children[at].direction == direction && children[at].transfer_id
        == transfer_id
    &&& forall|i: int|
        0 <= i < at ==> (#[trigger] children[i]).direction != direction || children[i].transfer_id
            != transfer_id
}

/// What an event says of how far a file has come: its direction, its transfer, its bytes so far and
/// its bytes in all. A file of a group that has come in as a whole has come all the way.
pub open spec fn progress_told(event: FileTransferEvent) -> Option<
    (TransferDirection, u64, u64, u64),
> {
    match event {
        FileTransferEvent::OutgoingProgress { transfer_id, sent_bytes, total_size, .. } => Some(
            (TransferDirection::Outgoing, transfer_id, sent_bytes, total_size),
        ),
        FileTransferEvent::IncomingProgress { transfer_id, received_bytes, total_size, .. } => Some(
            (TransferDirection::Incoming, transfer_id, received_bytes, total_size),
        ),
        FileTransferEvent::IncomingCompleted {
            transfer_id,
            group: Some(_),
            size_bytes,
            ..
        } => Some((TransferDirection::Incoming, transfer_id, size_bytes, size_bytes)),
        _ => None,
    }
}

/// How far a file has come is remembered of that file, whose group stays known, and shows in its own
/// row, or as the sum over its group in the row of the group. Nothing else changes in any row.
pub proof fn progress_shows_where_it_belongs(
    center: Center,
    event: FileTransferEvent,
    file_at: int,
    at: int,
)
    requires
        center.wf(),
        progress_told(event) is Some,
        has_file_place(
            center.children,
            (progress_told(event)->0).0,
            (progress_told(event)->0).1,
            file_at,
        ),
        0 <= at < center.entries.len(),
    ensures
        ({
            let after = center.after(event);
            let (direction, transfer_id, transferred_bytes, total_bytes) = progress_told(event)->0;
            let group_id = if file_at < center.children.len() {
                center.children[file_at].group_id
            } else {
                None
            };
            let was = center.entries[at];
            let now = after.entries[at];
            &&& after.entries.len() == center.entries.len()
            &&& after.children.len() >= center.children.len()
            &&& after.children[file_at] == (ChildProgress {
                direction,
                transfer_id,
                group_id,
                transferred_bytes,
                total_bytes,
            })
            &&& forall|i: int|
                0 <= i < center.children.len() && i != file_at ==> #[trigger] after.children[i]
                    == center.children[i]
            &&& now.key == was.key
            &&& now.row.status == was.row.status
            &&& now.row.label == was.row.label
            &&& now.row.detail == was.row.detail
            &&& now.row.direction == was.row.direction
            &&& now.row.cancel_target == was.row.cancel_target
            &&& match group_id {
                Some(group_id) => {
                    &&& now.row.total_bytes == was.row.total_bytes
                    &&& was.key == (TransferKey::Group { direction, group_id })
                        ==> now.row.transferred_bytes == group_bytes(
                        after.children,
                        direction,
                        group_id,
                    ) as u64
                    &&& was.key != (TransferKey::Group { direction, group_id }) ==> now == was
                },
                None => {
                    &&& was.key == (TransferKey::Transfer { direction, transfer_id })
                        ==> now.row.transferred_bytes == transferred_bytes && now.row.total_bytes
                        == total_bytes
                    &&& was.key != (TransferKey::Transfer { direction, transfer_id }) ==> now == was
                },
            }
        }),
{
    let (direction, transfer_id, transferred_bytes, total_bytes) = progress_told(event)->0;
    assert forall|i: int|
        #![trigger center.children[i]]
        0 <= i < file_at implies !is_child(center.children[i], direction, transfer_id) by {}
    lemma_child_at(center.children, direction, transfer_id, file_at);
    let key = center.progress_key(direction, transfer_id);
    lemma_row_of(center.entries, key);
    if center.entries[at].key == key {
        lemma_row_at(center.entries, key, at);
    }
}

/// A file of a group is remembered from its start on with none of its bytes.
pub proof fn files_of_groups_are_remembered(
    center: Center,
    event: FileTransferEvent,
    file_at: int,
)
    ensures
        ({
            let after = center.after(event);
            let remembered = |direction: TransferDirection, transfer_id: u64, group_id: u64, size: u64|
                has_file_place(center.children, direction, transfer_id, file_at) ==> {
                    &&& after.children[file_at] == (ChildProgress {
                        direction,
                        transfer_id,
                        group_id: Some(group_id),
                        transferred_bytes: 0,
                        total_bytes: size,
                    })
                    &&& after.children.len() >= center.children.len()
                    &&& forall|i: int|
                        0 <= i < center.children.len() && i != file_at ==> #[trigger] after.children[i]
                            == center.children[i]
                };
            match event {
                FileTransferEvent::OutgoingStarted {
                    transfer_id,
                    group: Some(group),
                    size_bytes,
                    ..
                } => remembered(TransferDirection::Outgoing, transfer_id, group.group_id, size_bytes),
                FileTransferEvent::IncomingStarted {
                    transfer_id,
                    group: Some(group),
                    size_bytes,
                    ..
                } => remembered(TransferDirection::Incoming, transfer_id, group.group_id, size_bytes),
                _ => true,
            }
        }),
{
    match event {
        FileTransferEvent::OutgoingStarted { transfer_id, group: Some(_), .. } => {
            if has_file_place(center.children, TransferDirection::Outgoing, transfer_id, file_at) {
                lemma_child_at(
                    center.children,
                    TransferDirection::Outgoing,
                    transfer_id,
                    file_at,
                );
            }
        },
        FileTransferEvent::IncomingStarted { transfer_id, group: Some(_), .. } => {
            if has_file_place(center.children, TransferDirection::Incoming, transfer_id, file_at) {
                lemma_child_at(
                    center.children,
                    TransferDirection::Incoming,
                    transfer_id,
                    file_at,
                );
            }
        },
        _ => {},
    }
}

/// A group's bytes are those of its own files in its own direction, each counted once.
pub proof fn groups_come_to_the_sum_of_their_files(
    children: Seq<ChildProgress>,
    child: ChildProgress,
    direction: TransferDirection,
    group_id: u64,
)
    ensures
        group_bytes(Seq::empty(), direction, group_id) == 0,
        child.direction == direction && child.group_id == Some(group_id) ==> group_bytes(
            children.push(child),
            direction,
            group_id,
        ) == group_bytes(children, direction, group_id) + child.transferred_bytes,
        child.direction != direction || child.group_id != Some(group_id) ==> group_bytes(
            children.push(child),
            direction,
            group_id,
        ) == group_bytes(children, direction, group_id),
{
    assert(children.push(child).drop_last() =~= children);
}

/// The sum over a group that an event makes the list show is the sum over the files that are known
/// once it is taken in; an event that shows none has none.
pub proof fn sums_are_those_that_show(center: Center, event: FileTransferEvent, file_at: int)
    ensures
        match event {
            FileTransferEvent::OutgoingGroupStarted { group_id, .. } => center.sum_after(event)
                == group_bytes(center.children, TransferDirection::Outgoing, group_id),
            FileTransferEvent::IncomingStarted { group: Some(group), .. } => center.sum_after(event)
                == group_bytes(center.children, TransferDirection::Incoming, group.group_id),
            FileTransferEvent::IncomingStarted { group: None, .. } => center.sum_after(event) == 0,
            _ => progress_told(event) is None ==> center.sum_after(event) == 0,
        },
        progress_told(event) is Some && has_file_place(
            center.children,
            (progress_told(event)->0).0,
            (progress_told(event)->0).1,
            file_at,
        ) ==> center.sum_after(event) == (if file_at < center.children.len()
            && center.children[file_at].group_id is Some {
            group_bytes(
                center.after(event).children,
                (progress_told(event)->0).0,
                center.children[file_at].group_id->0,
            )
        } else {
            0
        }),
{
    if progress_told(event) is Some {
        let (direction, transfer_id, transferred_bytes, total_bytes) = progress_told(event)->0;
        if has_file_place(center.children, direction, transfer_id, file_at) {
            assert forall|i: int|
                #![trigger center.children[i]]
                0 <= i < file_at implies !is_child(center.children[i], direction, transfer_id) by {}
            lemma_child_at(center.children, direction, transfer_id, file_at);
        }
    }
}

/// The clock goes on by one with every change, until the end of its range.
pub proof fn clocks_go_on_by_one(seq: u64)
    ensures
        seq < u64::MAX ==> ticked(seq) == seq + 1,
        seq == u64::MAX ==> ticked(seq) == seq,
{
}

} // verus!
