//! An in-memory stand-in for the file of a benchmark trial and the buffer
//! that may stand before it.
//!
//! The buffer behaves as a buffered writer of fixed capacity does: a write
//! that fits is kept in memory; one that does not fit first forces out what
//! is kept, and goes straight to the file if it is as large as the whole
//! buffer. A flush forces out what is kept.

use vstd::prelude::*;
use crate::bytes::append_bytes;
use crate::trial::{TrialEvent, TrialEventView};

verus! {

/// The mathematical state of a [`Sink`].
pub struct SinkView {
    /// Whether the file has been created.
    pub created: bool,
    /// Whether writes pass through the buffer.
    pub buffered: bool,
    /// The size of the buffer.
    pub capacity: nat,
    /// The bytes that have reached the file.
    pub file: Seq<u8>,
    /// The bytes kept in the buffer, not yet in the file.
    pub buffer: Seq<u8>,
}

impl SinkView {
    /// A sink whose file has not been created yet.
    pub open spec fn unmade(capacity: nat) -> SinkView {
        SinkView {
            created: false,
            buffered: false,
            capacity,
            file: Seq::empty(),
            buffer: Seq::empty(),
        }
    }

    /// A sink whose file was just created: nothing written, nothing kept.
    pub open spec fn fresh(buffered: bool, capacity: nat) -> SinkView {
        SinkView { created: true, buffered, capacity, file: Seq::empty(), buffer: Seq::empty() }
    }

    /// What holds of every sink: the buffer keeps no more than it has room
    /// for, and nothing at all when writes do not pass through it.
    pub open spec fn wf(self) -> bool {
        &&& self.buffer.len() <= self.capacity
        &&& !self.buffered ==> self.buffer.len() == 0
    }

    /// Everything written so far, in the order written, whether it has
    /// reached the file or not.
    pub open spec fn content(self) -> Seq<u8> {
        self.file + self.buffer
    }

    /// The sink after its file was created, or emptied.
    pub open spec fn create(self, buffered: bool) -> SinkView {
        SinkView::fresh(buffered, self.capacity)
    }

    /// The sink after what was kept in the buffer has been forced out.
    pub open spec fn flush(self) -> SinkView {
        SinkView { file: self.file + self.buffer, buffer: Seq::empty(), ..self }
    }

    /// The sink after a write of `bytes`.
    pub open spec fn write(self, bytes: Seq<u8>) -> SinkView {
        if !self.buffered {
            SinkView { file: self.file + bytes, ..self }
        } else if self.buffer.len() + bytes.len() < self.capacity {
            SinkView { buffer: self.buffer + bytes, ..self }
        } else {
            let room = if self.buffer.len() + bytes.len() > self.capacity {
                self.flush()
            } else {
                self
            };
            if bytes.len() >= self.capacity {
                SinkView { file: room.file + room.buffer + bytes, buffer: Seq::empty(), ..room }
            } else {
                SinkView { buffer: room.buffer + bytes, ..room }
            }
        }
    }
}

/// What the system says when the file is used before it was created.
pub open spec fn not_created() -> Seq<char> {
    "file is not open"@
}

/// The outcome of a write or a flush on `sink`.
pub open spec fn sink_outcome(sink: SinkView) -> TrialEventView {
    if sink.created {
        TrialEventView::Done
    } else {
        TrialEventView::Failed(not_created())
    }
}

/// A write keeps the sink well formed and adds its bytes to the end of what
/// was written before.
pub proof fn lemma_write_appends(sink: SinkView, bytes: Seq<u8>)
    requires
        sink.wf(),
    ensures
        sink.write(bytes).wf(),
        sink.write(bytes).content() == sink.content() + bytes,
        sink.write(bytes).created == sink.created,
        sink.write(bytes).buffered == sink.buffered,
        sink.write(bytes).capacity == sink.capacity,
{
    assert(sink.write(bytes).content() =~= sink.content() + bytes);
}

/// A flush keeps the sink well formed, changes nothing in what was written,
/// and leaves all of it in the file.
pub proof fn lemma_flush_empties(sink: SinkView)
    requires
        sink.wf(),
    ensures
        sink.flush().wf(),
        sink.flush().content() == sink.content(),
        sink.flush().file == sink.content(),
        sink.flush().buffer == Seq::<u8>::empty(),
        sink.flush().created == sink.created,
        sink.flush().buffered == sink.buffered,
        sink.flush().capacity == sink.capacity,
{
    assert(sink.flush().content() =~= sink.content());
}

/// The stand-in itself.
pub struct Sink {
    created: bool,
    buffered: bool,
    capacity: usize,
    file: Vec<u8>,
    buffer: Vec<u8>,
}

impl View for Sink {
    type V = SinkView;

    closed spec fn view(&self) -> SinkView {
        SinkView {
            created: self.created,
            buffered: self.buffered,
            capacity: self.capacity as nat,
            file: self.file@,
            buffer: self.buffer@,
        }
    }
}

impl Sink {
    /// A sink with a buffer of `capacity` bytes, whose file has not been
    /// created yet.
    pub fn new(capacity: usize) -> (sink: Sink)
        ensures
            sink@ == SinkView::unmade(capacity as nat),
            sink@.wf(),
    {
        Sink { created: false, buffered: false, capacity, file: Vec::new(), buffer: Vec::new() }
    }

    /// The bytes that have reached the file.
    pub fn file(&self) -> (bytes: &Vec<u8>)
        ensures
            bytes@ == self@.file,
    {
        &self.file
    }

    /// The bytes kept in the buffer.
    pub fn buffer(&self) -> (bytes: &Vec<u8>)
        ensures
            bytes@ == self@.buffer,
    {
        &self.buffer
    }

    /// Creates the file, or empties it, and says whether writes are to pass
    /// through the buffer from now on.
    pub fn create(&mut self, buffered: bool) -> (event: TrialEvent)
        ensures
            event@ == TrialEventView::Done,
            final(self)@ == old(self)@.create(buffered),
            final(self)@.wf(),
    {
        self.created = true;
        self.buffered = buffered;
        self.file = Vec::new();
        self.buffer = Vec::new();
        TrialEvent::Done
    }

    /// Forces out what is kept in the buffer. Fails, and does nothing, if
    /// the file has not been created.
    pub fn flush(&mut self) -> (event: TrialEvent)
        requires
            old(self)@.wf(),
        ensures
            event@ == sink_outcome(old(self)@),
            final(self)@.wf(),
            final(self)@ == if old(self)@.created {
                old(self)@.flush()
            } else {
                old(self)@
            },
    {
        if !self.created {
            return TrialEvent::Failed("file is not open".to_owned());
        }
        append_bytes(&mut self.file, self.buffer.as_slice());
        self.buffer = Vec::new();
        TrialEvent::Done
    }

    /// Writes `bytes`. Fails, and does nothing, if the file has not been
    /// created.
    pub fn write(&mut self, bytes: &[u8]) -> (event: TrialEvent)
        requires
            old(self)@.wf(),
        ensures
            event@ == sink_outcome(old(self)@),
            final(self)@.wf(),
            final(self)@ == if old(self)@.created {
                old(self)@.write(bytes@)
            } else {
                old(self)@
            },
    {
        if !self.created {
            return TrialEvent::Failed("file is not open".to_owned());
        }
        proof {
            lemma_write_appends(self@, bytes@);
        }
        if !self.buffered {
            append_bytes(&mut self.file, bytes);
        } else if bytes.len() < self.capacity - self.buffer.len() {
            append_bytes(&mut self.buffer, bytes);
        } else {
            if bytes.len() > self.capacity - self.buffer.len() {
                append_bytes(&mut self.file, self.buffer.as_slice());
                self.buffer = Vec::new();
            }
            if bytes.len() >= self.capacity {
                append_bytes(&mut self.file, self.buffer.as_slice());
                self.buffer = Vec::new();
                append_bytes(&mut self.file, bytes);
            } else {
                append_bytes(&mut self.buffer, bytes);
            }
        }
        TrialEvent::Done
    }
}

} // verus!
