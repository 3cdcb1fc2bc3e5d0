//! The command channel: one submitted line, then reads until its response is
//! complete.
//!
//! The channel decides; its caller does the terminal work. `begin` gives the
//! bytes to write, and each outcome of a read goes to `on_read`, which says
//! whether to read again or what the command's result is.
//!
//! A response is complete by a heuristic, not a guarantee: the shell echoes the
//! submitted line before its own output, so the response is the cleaned text
//! after the first echo of the line, trimmed, once it is not empty and no longer
//! holds the line. Output that itself holds the line, or an echo split across
//! reads, can end a response early or late; the caller's timeout bounds the wait.
use vstd::prelude::*;
use vstd::utf8::{decode_utf8, valid_utf8};
use crate::filter::{cleaned, remove_ansi_escape_codes};
use crate::text::{
    chars_of, contains, contains_chars, find, first_occurrence, string_of, trim, trim_chars,
    lemma_first_from, slice_chars, first_from, occurs_at,
};

verus! {

/// The text of bytes read from the terminal, each invalid UTF-8 sequence
/// replaced by U+FFFD.
pub uninterp spec fn utf8_lossy(b: Seq<u8>) -> Seq<char>;

/// Relies on `String::from_utf8_lossy`: the text of `b`, exact where `b` is
/// valid UTF-8, with U+FFFD for each invalid sequence; it never fails.
#[verifier::external_body]
fn decode_lossy(b: &Vec<u8>) -> (r: String)
    ensures
        r@ == utf8_lossy(b@),
        valid_utf8(b@) ==> r@ == decode_utf8(b@),
{
    String::from_utf8_lossy(b.as_slice()).into_owned()
}

/// The text of the bytes read: exact where they are valid UTF-8.
pub open spec fn decoded(b: Seq<u8>) -> Seq<char> {
    if valid_utf8(b) {
        decode_utf8(b)
    } else {
        utf8_lossy(b)
    }
}

/// The response to `line` in the cleaned text read so far, once it is complete.
/// Text that does not hold the line is complete as it is, trimmed. Once the
/// line is echoed, the response is what follows its first echo, trimmed, and it
/// is complete when it is not empty and does not hold the line again.
pub open spec fn response(text: Seq<char>, line: Seq<char>) -> Option<Seq<char>> {
    match first_occurrence(text, line) {
        None => Some(trim(text)),
        Some(k) => {
            let body = trim(text.skip(k + line.len()));
            if body.len() > 0 && (line.len() == 0 || !contains(body, line)) {
                Some(body)
            } else {
                None
            }
        },
    }
}

/// The complete response to `line` in the cleaned text `text`, or `None` while
/// more output is needed.
pub fn response_of(text: &str, line: &str) -> (r: Option<String>)
    ensures
        r matches Some(s) ==> response(text@, line@) == Some(s@),
        r is None ==> response(text@, line@) is None,
{
    let t = chars_of(text);
    let l = chars_of(line);
    proof {
        lemma_first_from(t@, l@, 0);
    }
    let rest = match find(&t, &l) {
        Some(k) => {
            assert(first_from(t@, l@, 0) == Some(k as int));
            assert(occurs_at(t@, l@, k as int));
            assert(k + l@.len() <= t@.len());
            slice_chars(&t, k + l.len(), t.len())
        },
        None => {
            return Some(string_of(&trim_chars(&t)));
        },
    };
    let body = trim_chars(&rest);
    if body.len() > 0 && (l.len() == 0 || !contains_chars(&body, &l)) {
        Some(string_of(&body))
    } else {
        None
    }
}

/// Why a command gave no response.
#[derive(Debug, Clone, Copy, PartialEq, Eq)]
pub enum SubmitError {
    /// A command is still waiting for its response.
    Busy,
    /// The shell ended: the terminal reached its end.
    ChildExited,
    /// Writing to or reading from the terminal failed.
    Io,
    /// The caller's time for the response ran out.
    TimedOut,
}

/// Why a read from the terminal brought no bytes.
#[derive(Debug, Clone, Copy, PartialEq, Eq)]
pub enum ReadError {
    /// Nothing to read yet.
    WouldBlock,
    /// A signal interrupted the read.
    Interrupted,
    /// The other side of the terminal is gone (the shell exited).
    HungUp,
    /// Any other failure.
    Other,
}

/// What one attempt to read from the terminal found, as the channel sees it.
#[derive(Debug, PartialEq, Eq)]
pub enum ReadEvent {
    /// Bytes of output.
    Data(Vec<u8>),
    /// No data yet.
    WouldBlock,
    /// The terminal reached its end: the shell exited.
    EndOfStream,
    /// The read, or the write before it, failed.
    Failed,
    /// The caller's deadline passed.
    TimedOut,
}

/// A read event over plain values.
pub enum EventView {
    Data(Seq<u8>),
    WouldBlock,
    EndOfStream,
    Failed,
    TimedOut,
}

impl View for ReadEvent {
    type V = EventView;

    open spec fn view(&self) -> EventView {
        match self {
            ReadEvent::Data(b) => EventView::Data(b@),
            ReadEvent::WouldBlock => EventView::WouldBlock,
            ReadEvent::EndOfStream => EventView::EndOfStream,
            ReadEvent::Failed => EventView::Failed,
            ReadEvent::TimedOut => EventView::TimedOut,
        }
    }
}

/// The event that a read's result amounts to: bytes, no data yet (also after
/// an interruption), the end of the terminal (an empty read, or a hang-up), or
/// a failure.
pub fn read_event(result: Result<Vec<u8>, ReadError>) -> (r: ReadEvent)
    ensures
        r@ == match result {
            Ok(b) => if b@.len() == 0 {
                EventView::EndOfStream
            } else {
                EventView::Data(b@)
            },
            Err(ReadError::WouldBlock) => EventView::WouldBlock,
            Err(ReadError::Interrupted) => EventView::WouldBlock,
            Err(ReadError::HungUp) => EventView::EndOfStream,
            Err(ReadError::Other) => EventView::Failed,
        },
{
    match result {
        Ok(b) => if b.len() == 0 {
            ReadEvent::EndOfStream
        } else {
            ReadEvent::Data(b)
        },
        Err(ReadError::WouldBlock) => ReadEvent::WouldBlock,
        Err(ReadError::Interrupted) => ReadEvent::WouldBlock,
        Err(ReadError::HungUp) => ReadEvent::EndOfStream,
        Err(ReadError::Other) => ReadEvent::Failed,
    }
}

/// What to do after a read.
#[derive(Debug, PartialEq, Eq)]
pub enum Step {
    /// Read again.
    Continue,
    /// The command is over, with its response or the reason it has none.
    Finished(Result<String, SubmitError>),
}

/// A step over plain values.
pub enum Outcome {
    Continue,
    Finished(Result<Seq<char>, SubmitError>),
}

impl View for Step {
    type V = Outcome;

    open spec fn view(&self) -> Outcome {
        match self {
            Step::Continue => Outcome::Continue,
            Step::Finished(Ok(s)) => Outcome::Finished(Ok(s@)),
            Step::Finished(Err(e)) => Outcome::Finished(Err(*e)),
        }
    }
}

/// The state of a channel: the last submitted line (the echo marker), the
/// bytes read for it so far, and whether it still waits for its response.
pub struct ChannelState {
    pub marker: Seq<char>,
    pub pending: Seq<u8>,
    pub waiting: bool,
}

/// The state with no command outstanding.
pub open spec fn idle(marker: Seq<char>) -> ChannelState {
    ChannelState { marker, pending: Seq::empty(), waiting: false }
}

/// What a read event does to a waiting channel, and what it tells the caller.
pub open spec fn transition(s: ChannelState, e: EventView) -> (ChannelState, Outcome) {
    match e {
        EventView::WouldBlock => (s, Outcome::Continue),
        EventView::Data(b) => {
            let pending = s.pending + b;
            match response(cleaned(decoded(pending)), s.marker) {
                Some(r) => (idle(s.marker), Outcome::Finished(Ok(r))),
                None => (ChannelState { pending, ..s }, Outcome::Continue),
            }
        },
        EventView::EndOfStream => (idle(s.marker), Outcome::Finished(Err(SubmitError::ChildExited))),
        EventView::Failed => (idle(s.marker), Outcome::Finished(Err(SubmitError::Io))),
        EventView::TimedOut => (idle(s.marker), Outcome::Finished(Err(SubmitError::TimedOut))),
    }
}

/// The request/response discipline over one terminal: at most one command
/// waits for its response at a time.
pub struct CommandChannel {
    marker: String,
    pending: Vec<u8>,
    waiting: bool,
}

impl View for CommandChannel {
    type V = ChannelState;

    closed spec fn view(&self) -> ChannelState {
        ChannelState { marker: self.marker@, pending: self.pending@, waiting: self.waiting }
    }
}

impl CommandChannel {
    /// A channel with no command submitted.
    pub fn new() -> (r: CommandChannel)
        ensures
            r@ == idle(Seq::empty()),
    {
        CommandChannel { marker: String::new(), pending: Vec::new(), waiting: false }
    }

    /// Whether a command waits for its response.
    pub fn is_waiting(&self) -> (r: bool)
        ensures
            r == self@.waiting,
    {
        self.waiting
    }

    /// Starts the command `line`: returns the text to write to the terminal,
    /// the line and one newline. While another command waits, returns `Busy`
    /// and changes nothing.
    pub fn begin(&mut self, line: &str) -> (r: Result<String, SubmitError>)
        ensures
            old(self)@.waiting ==> r == Err::<String, SubmitError>(SubmitError::Busy),
            old(self)@.waiting ==> final(self)@ == old(self)@,
            !old(self)@.waiting ==> (r matches Ok(w) && w@ == line@ + seq!['\n']),
            !old(self)@.waiting ==> final(self)@ == (ChannelState {
                marker: line@,
                pending: Seq::empty(),
                waiting: true,
            }),
    {
        if self.waiting {
            return Err(SubmitError::Busy);
        }
        let mut w = String::from_str(line);
        w.append("\n");
        proof {
            reveal_strlit("\n");
        }
        assert(w@ =~= line@ + seq!['\n']);
        self.marker = String::from_str(line);
        self.pending = Vec::new();
        self.waiting = true;
        Ok(w)
    }

    /// Ends the command: nothing waits, and the bytes read are dropped.
    fn finish(&mut self)
        ensures
            final(self)@ == idle(old(self)@.marker),
    {
        self.pending = Vec::new();
        self.waiting = false;
    }

    /// Takes what one read found and says whether to read again or what the
    /// command's result is.
    pub fn on_read(&mut self, event: ReadEvent) -> (r: Step)
        requires
            old(self)@.waiting,
        ensures
            (final(self)@, r@) == transition(old(self)@, event@),
    {
        match event {
            ReadEvent::Data(bytes) => {
                let mut bytes = bytes;
                self.pending.append(&mut bytes);
                let raw = decode_lossy(&self.pending);
                let text = remove_ansi_escape_codes(raw.as_str());
                match response_of(text.as_str(), self.marker.as_str()) {
                    Some(r) => {
                        self.finish();
                        Step::Finished(Ok(r))
                    },
                    None => Step::Continue,
                }
            },
            ReadEvent::WouldBlock => Step::Continue,
            ReadEvent::EndOfStream => {
                self.finish();
                Step::Finished(Err(SubmitError::ChildExited))
            },
            ReadEvent::Failed => {
                self.finish();
                Step::Finished(Err(SubmitError::Io))
            },
            ReadEvent::TimedOut => {
                self.finish();
                Step::Finished(Err(SubmitError::TimedOut))
            },
        }
    }
}

/// The state after `n` reads in a row that found no data.
pub open spec fn after_idle_polls(s: ChannelState, n: nat) -> ChannelState
    decreases n,
{
    if n == 0 {
        s
    } else {
        transition(after_idle_polls(s, (n - 1) as nat), EventView::WouldBlock).0
    }
}

/// No data is no completion: however many reads in a row find nothing, the
/// channel's state stays as it was, and none of them ends the command.
pub proof fn lemma_no_data_never_completes(s: ChannelState, n: nat)
    ensures
        after_idle_polls(s, n) == s,
        transition(after_idle_polls(s, n), EventView::WouldBlock).1 is Continue,
    decreases n,
{
    if n > 0 {
        lemma_no_data_never_completes(s, (n - 1) as nat);
    }
}

/// When the shell exits the command ends: the end of the terminal finishes it
/// with `ChildExited`, whatever was read before, and the channel is idle again.
pub proof fn lemma_child_exit_ends_command(s: ChannelState)
    ensures
        transition(s, EventView::EndOfStream) == (
            idle(s.marker),
            Outcome::Finished(Err(SubmitError::ChildExited)),
        ),
        !transition(s, EventView::EndOfStream).0.waiting,
{
}

} // verus!
