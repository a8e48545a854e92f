//! The output streamer: what each read from a terminal leads to.
//!
//! One streamer serves one session. The caller reads from the terminal in a
//! loop and shows the streamer every result; the streamer says what is to be
//! delivered and when the loop is over.

use vstd::prelude::*;
use vstd::utf8::decode_utf8;
use vstd::utf8::valid_utf8;

verus! {

/// The size of the buffer that one read from a terminal fills at most.
pub const READ_BUFFER_SIZE: usize = 4096;

/// The text that `String::from_utf8_lossy` makes of `bytes`.
pub uninterp spec fn lossy_utf8(bytes: Seq<u8>) -> Seq<char>;

/// Decodes `bytes` as UTF-8 with `String::from_utf8_lossy`, which never
/// fails: each invalid sequence is replaced by U+FFFD.
///
/// Trusted: the result is [`lossy_utf8`] of the bytes, and bytes that are
/// valid UTF-8 are decoded as they stand.
#[verifier::external_body]
pub(crate) fn decode_lossy(bytes: &[u8]) -> (text: String)
    ensures
        text@ == lossy_utf8(bytes@),
        valid_utf8(bytes@) ==> text@ == decode_utf8(bytes@),
{
    String::from_utf8_lossy(bytes).into_owned()
}

/// The result of one read from a session's terminal.
pub enum ReadEvent<'a> {
    /// The read returned these bytes. None at all means that the stream has
    /// ended: the shell is gone and its side of the terminal is closed.
    Data(&'a [u8]),
    /// The read failed.
    Failed,
}

/// A [`ReadEvent`] in contracts.
pub enum ReadEventView {
    Data(Seq<u8>),
    Failed,
}

impl<'a> View for ReadEvent<'a> {
    type V = ReadEventView;

    open spec fn view(&self) -> ReadEventView {
        match self {
            ReadEvent::Data(bytes) => ReadEventView::Data(bytes@),
            ReadEvent::Failed => ReadEventView::Failed,
        }
    }
}

impl ReadEventView {
    /// Whether the streamer stops at this event: at the end of the stream
    /// and at a failed read, and at nothing else.
    pub open spec fn ends_stream(self) -> bool {
        match self {
            ReadEventView::Data(bytes) => bytes.len() == 0,
            ReadEventView::Failed => true,
        }
    }
}

/// One chunk of a session's output, decoded, for the consumer.
#[derive(Debug)]
pub struct PtyOutput {
    pub id: String,
    pub data: String,
}

/// A [`PtyOutput`] in contracts.
pub struct PtyOutputView {
    pub id: Seq<char>,
    pub data: Seq<char>,
}

impl View for PtyOutput {
    type V = PtyOutputView;

    open spec fn view(&self) -> PtyOutputView {
        PtyOutputView { id: self.id@, data: self.data@ }
    }
}

impl Clone for PtyOutput {
    fn clone(&self) -> (copy: PtyOutput)
        ensures
            copy@ == self@,
    {
        PtyOutput { id: self.id.clone(), data: self.data.clone() }
    }
}

/// What an [`OutputStreamer`] is in contracts.
pub struct StreamerState {
    pub id: Seq<char>,
    pub running: bool,
}

impl StreamerState {
    /// The streamer after it has stopped.
    pub open spec fn stopped(self) -> StreamerState {
        StreamerState { id: self.id, running: false }
    }

    /// The output that a running streamer delivers for a chunk of bytes.
    pub open spec fn output_for(self, bytes: Seq<u8>) -> PtyOutputView {
        PtyOutputView { id: self.id, data: lossy_utf8(bytes) }
    }

    /// One step: the streamer after `event`, and what it delivers for it. A
    /// running streamer delivers every chunk that holds bytes and goes on; at
    /// the end of the stream or a failed read it stops. A streamer that has
    /// stopped delivers nothing and stays stopped.
    pub open spec fn step(self, event: ReadEventView) -> (StreamerState, Option<PtyOutputView>) {
        if self.running && !event.ends_stream() {
            (self, Some(self.output_for(event->Data_0)))
        } else {
            (self.stopped(), None)
        }
    }

    /// The outputs that the streamer delivers for a run of events, in order.
    pub open spec fn run(self, events: Seq<ReadEventView>) -> Seq<PtyOutputView>
        decreases events.len(),
    {
        if events.len() == 0 {
            Seq::empty()
        } else {
            let (next, delivered) = self.step(events[0]);
            let rest = next.run(events.drop_first());
            match delivered {
                Some(output) => seq![output] + rest,
                None => rest,
            }
        }
    }
}

/// The streamer of one session.
pub struct OutputStreamer {
    id: String,
    running: bool,
}

impl View for OutputStreamer {
    type V = StreamerState;

    closed spec fn view(&self) -> StreamerState {
        StreamerState { id: self.id@, running: self.running }
    }
}

impl OutputStreamer {
    /// A running streamer for the session `id`.
    pub fn new(id: String) -> (streamer: OutputStreamer)
        ensures
            streamer@ == (StreamerState { id: id@, running: true }),
    {
        OutputStreamer { id, running: true }
    }

    /// Whether the streamer still wants to be shown reads.
    pub fn is_running(&self) -> (running: bool)
        ensures
            running == self@.running,
    {
        self.running
    }

    /// The output of this streamer's session that carries `data`.
    pub fn output(&self, data: String) -> (output: PtyOutput)
        ensures
            output@ == (PtyOutputView { id: self@.id, data: data@ }),
    {
        PtyOutput { id: self.id.clone(), data }
    }

    /// Takes the result of one read. Returns what is to be delivered to the
    /// consumer, if anything; afterwards [`OutputStreamer::is_running`] says
    /// whether to read again.
    pub fn on_read(&mut self, event: ReadEvent<'_>) -> (delivered: Option<PtyOutput>)
        ensures
            final(self)@ == old(self)@.step(event@).0,
            match delivered {
                Some(output) => old(self)@.step(event@).1 == Some(output@) && (valid_utf8(
                    event@->Data_0,
                ) ==> output@.data == decode_utf8(event@->Data_0)),
                None => old(self)@.step(event@).1.is_none(),
            },
    {
        if !self.running {
            return None;
        }
        match event {
            ReadEvent::Data(bytes) => {
                if bytes.len() == 0 {
                    self.running = false;
                    None
                } else {
                    let data = decode_lossy(bytes);
                    Some(self.output(data))
                }
            },
            ReadEvent::Failed => {
                self.running = false;
                None
            },
        }
    }
}

} // verus!
