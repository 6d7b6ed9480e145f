//! An in-memory stand-in for the file of a verification run.
//!
//! The stand-in is deliberately strict about visibility: what is written
//! stays staged, unseen by the length query and by readers, until a data
//! sync publishes it. The sync belongs to the file, not to a handle: issued
//! through any open handle, it publishes what every handle has written.
//!
//! A [`Fault`] can be planted to make one write go wrong, so that the
//! checks of a run can be seen to catch it.

use vstd::prelude::*;
use vstd::slice::slice_subrange;
use crate::bytes::append_bytes;
use crate::durability::{Action, Event, EventView, Handle};

verus! {

/// The way in which a write goes wrong.
#[derive(Clone, Copy, Debug, PartialEq, Eq, Structural)]
pub enum FaultKind {
    /// Only the first `kept` bytes are written.
    ShortWrite { kept: usize },
    /// The bytes are written twice.
    DuplicateWrite,
}

/// One write that goes wrong: the write that follows `after` sound ones.
#[derive(Clone, Copy, Debug, PartialEq, Eq, Structural)]
pub struct Fault {
    pub after: u64,
    pub kind: FaultKind,
}

/// What a faulty write of `payload` puts into the file.
pub open spec fn harmed(kind: FaultKind, payload: Seq<u8>) -> Seq<u8> {
    match kind {
        FaultKind::ShortWrite { kept } => if kept < payload.len() {
            payload.take(kept as int)
        } else {
            payload
        },
        FaultKind::DuplicateWrite => payload + payload,
    }
}

/// What the system says when a handle is used that is not open.
pub open spec fn not_open() -> Seq<char> {
    "handle is not open"@
}

/// What the system says when the file is not there.
pub open spec fn not_found() -> Seq<char> {
    "no such file"@
}

/// The mathematical state of a [`Disk`].
pub struct DiskView {
    /// Whether the file is there.
    pub present: bool,
    /// The bytes that the length query and readers see.
    pub visible: Seq<u8>,
    /// The bytes written since the last sync, in order.
    pub staged: Seq<u8>,
    /// Whether the writer is open.
    pub writer: bool,
    /// Whether the syncer is open.
    pub syncer: bool,
    /// The position of the reader, if it is open.
    pub reader: Option<nat>,
    /// The fault that is still to come.
    pub fault: Option<Fault>,
}

impl DiskView {
    /// A disk without the file and without a fault.
    pub open spec fn empty() -> DiskView {
        DiskView {
            present: false,
            visible: Seq::empty(),
            staged: Seq::empty(),
            writer: false,
            syncer: false,
            reader: None,
            fault: None,
        }
    }

    /// Whether the handle is open.
    pub open spec fn is_open(self, handle: Handle) -> bool {
        match handle {
            Handle::Writer => self.writer,
            Handle::Syncer => self.syncer,
            Handle::Reader => self.reader is Some,
        }
    }

    /// What the next write of `payload` puts into the file.
    pub open spec fn written(self, payload: Seq<u8>) -> Seq<u8> {
        match self.fault {
            Some(fault) => if fault.after == 0 {
                harmed(fault.kind, payload)
            } else {
                payload
            },
            None => payload,
        }
    }

    /// The fault that is still to come after the next write.
    pub open spec fn fault_after_write(self) -> Option<Fault> {
        match self.fault {
            Some(fault) => if fault.after == 0 {
                None
            } else {
                Some(Fault { after: (fault.after - 1) as u64, kind: fault.kind })
            },
            None => None,
        }
    }

    /// The bytes that a read of up to `count` bytes gets at position `at`:
    /// what is visible from there, and nothing past the end.
    pub open spec fn span(self, at: nat, count: nat) -> Seq<u8> {
        if at >= self.visible.len() {
            Seq::empty()
        } else if at + count >= self.visible.len() {
            self.visible.subrange(at as int, self.visible.len() as int)
        } else {
            self.visible.subrange(at as int, (at + count) as int)
        }
    }

    /// Whether the operation can be performed at all: whether the file and
    /// the handle that it needs are there.
    pub open spec fn permits(self, action: Action) -> bool {
        match action {
            Action::Remove => true,
            Action::Open(Handle::Writer) => true,
            Action::Open(_) => self.present,
            Action::Write => self.writer,
            Action::Sync(handle) => self.is_open(handle),
            Action::QueryLength => self.present,
            Action::Seek(_) => self.reader is Some,
            Action::Read(_) => self.reader is Some,
            Action::Finish => true,
        }
    }

    /// The outcome of the operation.
    pub open spec fn outcome(self, action: Action, payload: Seq<u8>) -> EventView {
        if !self.permits(action) {
            EventView::Failed(
                match action {
                    Action::Open(_) => not_found(),
                    Action::QueryLength => not_found(),
                    _ => not_open(),
                },
            )
        } else {
            match action {
                Action::QueryLength => EventView::Length(self.visible.len()),
                Action::Read(count) => EventView::Data(
                    self.span(self.reader->Some_0, count as nat),
                ),
                _ => EventView::Done,
            }
        }
    }

    /// The disk after the operation. One that cannot be performed changes
    /// nothing.
    pub open spec fn after(self, action: Action, payload: Seq<u8>) -> DiskView {
        if !self.permits(action) {
            self
        } else {
            match action {
                Action::Remove => DiskView { fault: self.fault, ..DiskView::empty() },
                Action::Open(Handle::Writer) => DiskView { present: true, writer: true, ..self },
                Action::Open(Handle::Syncer) => DiskView { syncer: true, ..self },
                Action::Open(Handle::Reader) => DiskView { reader: Some(0), ..self },
                Action::Write => DiskView {
                    staged: self.staged + self.written(payload),
                    fault: self.fault_after_write(),
                    ..self
                },
                Action::Sync(_) => DiskView {
                    visible: self.visible + self.staged,
                    staged: Seq::empty(),
                    ..self
                },
                Action::QueryLength => self,
                Action::Seek(offset) => DiskView { reader: Some(offset as nat), ..self },
                Action::Read(count) => DiskView {
                    reader: Some(
                        self.reader->Some_0 + self.span(self.reader->Some_0, count as nat).len(),
                    ),
                    ..self
                },
                Action::Finish => self,
            }
        }
    }
}

/// The sync belongs to the file: through whichever open handle it is
/// issued, it succeeds and leaves the same disk behind.
pub proof fn lemma_sync_belongs_to_file(
    disk: DiskView,
    one: Handle,
    other: Handle,
    payload: Seq<u8>,
)
    requires
        disk.is_open(one),
        disk.is_open(other),
    ensures
        disk.outcome(Action::Sync(one), payload) == EventView::Done,
        disk.outcome(Action::Sync(other), payload) == EventView::Done,
        disk.after(Action::Sync(one), payload) == disk.after(Action::Sync(other), payload),
        disk.after(Action::Sync(one), payload).visible == disk.visible + disk.staged,
{
}

/// A reader opened on a file in which nothing is visible yet reads no
/// bytes, however many it asks for.
pub proof fn lemma_early_reader_reads_nothing(disk: DiskView, payload: Seq<u8>, count: u64)
    requires
        disk.present,
        disk.visible.len() == 0,
    ensures
        disk.outcome(Action::Open(Handle::Reader), payload) == EventView::Done,
        disk.after(Action::Open(Handle::Reader), payload).outcome(Action::Read(count), payload)
            == EventView::Data(Seq::<u8>::empty()),
{
}

/// Before the sync a write is not to be seen: the length is the old one,
/// and a fresh reader sent to the old end of the file reads no bytes.
pub proof fn lemma_unsynced_write_unseen(disk: DiskView, payload: Seq<u8>, count: u64)
    requires
        disk.present,
        disk.writer,
        disk.visible.len() <= u64::MAX,
    ensures
        ({
            let written = disk.after(Action::Write, payload);
            let reading = written.after(Action::Open(Handle::Reader), payload).after(
                Action::Seek(disk.visible.len() as u64),
                payload,
            );
            &&& written.outcome(Action::QueryLength, payload) == EventView::Length(
                disk.visible.len(),
            )
            &&& reading.outcome(Action::Read(count), payload) == EventView::Data(
                Seq::<u8>::empty(),
            )
        }),
{
}

/// After the sync a write is there to be seen: after a sound write and a
/// sync through any open handle, the length has grown by the payload's
/// size, and a fresh reader sent one payload before the new end reads the
/// payload, byte for byte.
pub proof fn lemma_read_after_sync(disk: DiskView, payload: Seq<u8>, through: Handle)
    requires
        disk.present,
        disk.writer,
        disk.is_open(through),
        disk.staged.len() == 0,
        disk.written(payload) == payload,
        disk.visible.len() + payload.len() <= u64::MAX,
    ensures
        ({
            let synced = disk.after(Action::Write, payload).after(Action::Sync(through), payload);
            let reading = synced.after(Action::Open(Handle::Reader), payload).after(
                Action::Seek(disk.visible.len() as u64),
                payload,
            );
            &&& synced.outcome(Action::QueryLength, payload) == EventView::Length(
                disk.visible.len() + payload.len(),
            )
            &&& reading.outcome(Action::Read(payload.len() as u64), payload) == EventView::Data(
                payload,
            )
        }),
{
    let synced = disk.after(Action::Write, payload).after(Action::Sync(through), payload);
    assert(synced.visible =~= disk.visible + payload);
    let reading = synced.after(Action::Open(Handle::Reader), payload).after(
        Action::Seek(disk.visible.len() as u64),
        payload,
    );
    assert(reading.span(disk.visible.len(), payload.len()) =~= payload);
}

/// The stand-in itself.
pub struct Disk {
    present: bool,
    visible: Vec<u8>,
    staged: Vec<u8>,
    writer: bool,
    syncer: bool,
    reader: Option<u64>,
    fault: Option<Fault>,
}

impl View for Disk {
    type V = DiskView;

    closed spec fn view(&self) -> DiskView {
        DiskView {
            present: self.present,
            visible: self.visible@,
            staged: self.staged@,
            writer: self.writer,
            syncer: self.syncer,
            reader: match self.reader {
                Some(at) => Some(at as nat),
                None => None,
            },
            fault: self.fault,
        }
    }
}

impl Disk {
    /// A disk without the file and without a fault.
    pub fn new() -> (disk: Disk)
        ensures
            disk@ == DiskView::empty(),
    {
        Disk {
            present: false,
            visible: Vec::new(),
            staged: Vec::new(),
            writer: false,
            syncer: false,
            reader: None,
            fault: None,
        }
    }

    /// A disk without the file, on which one write will go wrong.
    pub fn with_fault(fault: Fault) -> (disk: Disk)
        ensures
            disk@ == (DiskView { fault: Some(fault), ..DiskView::empty() }),
    {
        Disk {
            present: false,
            visible: Vec::new(),
            staged: Vec::new(),
            writer: false,
            syncer: false,
            reader: None,
            fault: Some(fault),
        }
    }

    /// Whether the file is there.
    pub fn is_present(&self) -> (present: bool)
        ensures
            present == self@.present,
    {
        self.present
    }

    /// The bytes that the length query and readers see.
    pub fn visible(&self) -> (bytes: &Vec<u8>)
        ensures
            bytes@ == self@.visible,
    {
        &self.visible
    }

    /// The bytes written since the last sync.
    pub fn staged(&self) -> (bytes: &Vec<u8>)
        ensures
            bytes@ == self@.staged,
    {
        &self.staged
    }

    /// Performs the operation, a write with `payload`, and says how it went.
    pub fn perform(&mut self, action: Action, payload: &[u8]) -> (event: Event)
        ensures
            event@ == old(self)@.outcome(action, payload@),
            final(self)@ == old(self)@.after(action, payload@),
    {
        match action {
            Action::Remove => {
                self.present = false;
                self.visible = Vec::new();
                self.staged = Vec::new();
                self.writer = false;
                self.syncer = false;
                self.reader = None;
                Event::Done
            },
            Action::Open(handle) => {
                match handle {
                    Handle::Writer => {
                        self.present = true;
                        self.writer = true;
                        Event::Done
                    },
                    Handle::Syncer => {
                        if self.present {
                            self.syncer = true;
                            Event::Done
                        } else {
                            Event::Failed("no such file".to_owned())
                        }
                    },
                    Handle::Reader => {
                        if self.present {
                            self.reader = Some(0);
                            Event::Done
                        } else {
                            Event::Failed("no such file".to_owned())
                        }
                    },
                }
            },
            Action::Write => {
                if self.writer {
                    self.write(payload);
                    Event::Done
                } else {
                    Event::Failed("handle is not open".to_owned())
                }
            },
            Action::Sync(handle) => {
                let open: bool = match handle {
                    Handle::Writer => self.writer,
                    Handle::Syncer => self.syncer,
                    Handle::Reader => self.reader.is_some(),
                };
                if open {
                    append_bytes(&mut self.visible, self.staged.as_slice());
                    self.staged = Vec::new();
                    Event::Done
                } else {
                    Event::Failed("handle is not open".to_owned())
                }
            },
            Action::QueryLength => {
                if self.present {
                    Event::Length(self.visible.len() as u64)
                } else {
                    Event::Failed("no such file".to_owned())
                }
            },
            Action::Seek(offset) => {
                if self.reader.is_some() {
                    self.reader = Some(offset);
                    Event::Done
                } else {
                    Event::Failed("handle is not open".to_owned())
                }
            },
            Action::Read(count) => {
                match self.reader {
                    Some(at) => {
                        let data = self.read_at(at, count);
                        self.reader = Some(at + data.len() as u64);
                        Event::Data(data)
                    },
                    None => Event::Failed("handle is not open".to_owned()),
                }
            },
            Action::Finish => Event::Done,
        }
    }

    /// Stages what a write of `payload` puts into the file, and uses up the
    /// fault if this is the write it was planted for.
    fn write(&mut self, payload: &[u8])
        ensures
            final(self)@ == (DiskView {
                staged: old(self)@.staged + old(self)@.written(payload@),
                fault: old(self)@.fault_after_write(),
                ..old(self)@
            }),
    {
        match self.fault {
            Some(fault) => {
                if fault.after == 0 {
                    match fault.kind {
                        FaultKind::ShortWrite { kept } => {
                            if kept < payload.len() {
                                append_bytes(&mut self.staged, slice_subrange(payload, 0, kept));
                            } else {
                                append_bytes(&mut self.staged, payload);
                            }
                        },
                        FaultKind::DuplicateWrite => {
                            append_bytes(&mut self.staged, payload);
                            append_bytes(&mut self.staged, payload);
                            assert(old(self)@.staged + payload@ + payload@ =~= old(self)@.staged
                                + (payload@ + payload@));
                        },
                    }
                    self.fault = None;
                } else {
                    self.fault = Some(Fault { after: fault.after - 1, kind: fault.kind });
                    append_bytes(&mut self.staged, payload);
                }
            },
            None => {
                append_bytes(&mut self.staged, payload);
            },
        }
    }

    /// The visible bytes from `at` on, `count` of them at most.
    fn read_at(&self, at: u64, count: u64) -> (data: Vec<u8>)
        ensures
            data@ == self@.span(at as nat, count as nat),
            at + data@.len() <= u64::MAX,
    {
        let mut data: Vec<u8> = Vec::new();
        let len: usize = self.visible.len();
        if at >= len as u64 {
            return data;
        }
        let from: usize = at as usize;
        let until: usize = if count >= (len - from) as u64 {
            len
        } else {
            from + count as usize
        };
        append_bytes(&mut data, slice_subrange(self.visible.as_slice(), from, until));
        assert(Seq::<u8>::empty() + self.visible@.subrange(from as int, until as int)
            =~= self.visible@.subrange(from as int, until as int));
        data
    }
}

} // verus!
