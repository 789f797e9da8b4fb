//! The endpoint client's protocol: connect, write the request, read until
//! the peer closes, decode, all of it before one deadline. The socket and
//! the clock belong to the driver; this module decides what each event
//! means for the fetch, given when it happened.

use vstd::prelude::*;
use vstd::utf8::{decode_utf8, valid_utf8};

use crate::outcome::FetchError;

verus! {

/// The request token written after connecting.
pub const REQUEST_COMMAND: &'static str = "rffff0";

/// Milliseconds allowed for connecting, writing and reading together.
pub const FETCH_TIMEOUT_MS: u64 = 3000;

/// The text that lossy decoding makes of a byte sequence: the standard
/// library's `String::from_utf8_lossy`, which keeps valid UTF-8 as it is and
/// puts U+FFFD in place of what is not.
pub uninterp spec fn lossy_text(bytes: Seq<u8>) -> Seq<char>;

/// Calls `String::from_utf8_lossy` and takes ownership of what it returns.
/// Trusted: the result is the lossy decoding of the bytes, and for valid
/// UTF-8 it is the text that the bytes encode.
#[verifier::external_body]
fn decode_lossy(bytes: &Vec<u8>) -> (text: String)
    ensures
        text@ == lossy_text(bytes@),
        valid_utf8(bytes@) ==> text@ == decode_utf8(bytes@),
{
    String::from_utf8_lossy(bytes).into_owned()
}

/// Calls `String::from_utf8`. Trusted: it succeeds exactly on valid UTF-8,
/// and the string is then the text that the bytes encode.
#[verifier::external_body]
fn decode_strict(bytes: Vec<u8>) -> (text: Option<String>)
    ensures
        match text {
            Some(decoded) => valid_utf8(bytes@) && decoded@ == decode_utf8(bytes@),
            None => !valid_utf8(bytes@),
        },
{
    String::from_utf8(bytes).ok()
}

/// What a complete response decodes to. Valid UTF-8 is the text it encodes.
/// Anything else is an error under strict decoding and its lossy text
/// otherwise.
pub open spec fn decoded(bytes: Seq<u8>, strict: bool) -> Result<Seq<char>, FetchError> {
    if valid_utf8(bytes) {
        Ok(decode_utf8(bytes))
    } else if strict {
        Err(FetchError::InvalidEncoding)
    } else {
        Ok(lossy_text(bytes))
    }
}

/// View of a fetch result: the text by its characters.
pub open spec fn result_view(result: Result<String, FetchError>) -> Result<Seq<char>, FetchError> {
    match result {
        Ok(text) => Ok(text@),
        Err(error) => Err(error),
    }
}

/// Decodes a complete response.
pub fn decode_response(bytes: Vec<u8>, strict: bool) -> (result: Result<String, FetchError>)
    ensures
        result_view(result) == decoded(bytes@, strict),
{
    if strict {
        match decode_strict(bytes) {
            Some(text) => Ok(text),
            None => Err(FetchError::InvalidEncoding),
        }
    } else {
        Ok(decode_lossy(&bytes))
    }
}

/// Where a fetch stands.
#[derive(Clone, Copy, Debug, PartialEq, Eq, Structural)]
pub enum FetchStage {
    /// The connection is being opened.
    Connecting,
    /// The request token is being written.
    Writing,
    /// The response is being read; the peer has not closed yet.
    Reading,
}

/// What happened on the socket, or to the deadline.
#[derive(Debug)]
pub enum FetchEvent {
    /// The connection is open.
    Connected,
    /// The connection could not be opened.
    ConnectFailed,
    /// The request token was written in full.
    Written,
    /// Writing the request token failed.
    WriteFailed,
    /// Some bytes of the response arrived.
    Chunk(Vec<u8>),
    /// The peer closed the connection: the response is complete.
    EndOfStream,
    /// Reading failed.
    ReadFailed,
    /// The driver's timer for the deadline of the whole fetch has fired.
    DeadlineElapsed,
}

/// Mathematical model of a [`FetchEvent`].
pub enum EventModel {
    Connected,
    ConnectFailed,
    Written,
    WriteFailed,
    Chunk(Seq<u8>),
    EndOfStream,
    ReadFailed,
    DeadlineElapsed,
}

impl View for FetchEvent {
    type V = EventModel;

    open spec fn view(&self) -> EventModel {
        match self {
            FetchEvent::Connected => EventModel::Connected,
            FetchEvent::ConnectFailed => EventModel::ConnectFailed,
            FetchEvent::Written => EventModel::Written,
            FetchEvent::WriteFailed => EventModel::WriteFailed,
            FetchEvent::Chunk(bytes) => EventModel::Chunk(bytes@),
            FetchEvent::EndOfStream => EventModel::EndOfStream,
            FetchEvent::ReadFailed => EventModel::ReadFailed,
            FetchEvent::DeadlineElapsed => EventModel::DeadlineElapsed,
        }
    }
}

/// Mathematical model of a [`FetchSession`].
pub struct SessionModel {
    pub stage: FetchStage,
    /// The response bytes received so far, in order of arrival.
    pub received: Seq<u8>,
    /// Whether a response that is not UTF-8 is an error.
    pub strict: bool,
    /// Milliseconds allowed for the whole fetch, counted from its start.
    pub timeout: nat,
}

/// Mathematical model of a [`Fetch`].
pub enum FetchModel {
    Pending(SessionModel),
    Finished(Result<Seq<char>, FetchError>),
}

/// An event and when it happened, in milliseconds since the fetch began.
pub struct TimedEvent {
    pub event: EventModel,
    pub elapsed: nat,
}

impl SessionModel {
    /// A fetch at its start.
    pub open spec fn begin(strict: bool, timeout: nat) -> Self {
        SessionModel { stage: FetchStage::Connecting, received: Seq::empty(), strict, timeout }
    }

    /// The failure of the stage the fetch is in.
    pub open spec fn stage_failure(self) -> FetchError {
        match self.stage {
            FetchStage::Connecting => FetchError::ConnectFailed,
            FetchStage::Writing => FetchError::WriteFailed,
            FetchStage::Reading => FetchError::ReadFailed,
        }
    }

    /// Whether an event that happened `elapsed` milliseconds into the fetch
    /// comes too late.
    pub open spec fn late(self, elapsed: nat) -> bool {
        elapsed >= self.timeout
    }

    /// The fetch after an event that came in time. Each stage goes on with
    /// the event that completes it; while reading, arriving bytes are
    /// appended and the end of the stream finishes the fetch with the
    /// decoded response. The deadline timer finishes it with a timeout.
    /// Every other event fails the stage it meets.
    pub open spec fn advance_in_time(self, event: EventModel) -> FetchModel {
        match (self.stage, event) {
            (_, EventModel::DeadlineElapsed) => FetchModel::Finished(Err(FetchError::Timeout)),
            (FetchStage::Connecting, EventModel::Connected) => FetchModel::Pending(
                SessionModel { stage: FetchStage::Writing, ..self },
            ),
            (FetchStage::Writing, EventModel::Written) => FetchModel::Pending(
                SessionModel { stage: FetchStage::Reading, ..self },
            ),
            (FetchStage::Reading, EventModel::Chunk(bytes)) => FetchModel::Pending(
                SessionModel { received: self.received + bytes, ..self },
            ),
            (FetchStage::Reading, EventModel::EndOfStream) => FetchModel::Finished(
                decoded(self.received, self.strict),
            ),
            _ => FetchModel::Finished(Err(self.stage_failure())),
        }
    }

    /// The fetch after one event. An event that comes at or after the
    /// deadline finishes the fetch with a timeout, whatever it reports;
    /// one that comes in time is taken for what it reports.
    pub open spec fn advance(self, event: EventModel, elapsed: nat) -> FetchModel {
        if self.late(elapsed) {
            FetchModel::Finished(Err(FetchError::Timeout))
        } else {
            self.advance_in_time(event)
        }
    }
}

impl FetchModel {
    /// The fetch after one event; a finished fetch stays as it is.
    pub open spec fn step(self, timed: TimedEvent) -> FetchModel {
        match self {
            FetchModel::Pending(session) => session.advance(timed.event, timed.elapsed),
            FetchModel::Finished(_) => self,
        }
    }

    /// The fetch after a sequence of events.
    pub open spec fn run(self, events: Seq<TimedEvent>) -> FetchModel
        decreases events.len(),
    {
        if events.len() == 0 {
            self
        } else {
            self.run(events.drop_last()).step(events.last())
        }
    }
}

/// The bytes of a sequence of chunks, in order.
pub open spec fn concat(chunks: Seq<Seq<u8>>) -> Seq<u8>
    decreases chunks.len(),
{
    if chunks.len() == 0 {
        Seq::empty()
    } else {
        concat(chunks.drop_last()) + chunks.last()
    }
}

/// Whether every event of a sequence came before `timeout`.
pub open spec fn all_in_time(events: Seq<TimedEvent>, timeout: nat) -> bool {
    forall|i: int| 0 <= i < events.len() ==> (#[trigger] events[i]).elapsed < timeout
}

/// Whether a sequence of events reports the given chunks, one event each
/// and in order.
pub open spec fn reports_chunks(events: Seq<TimedEvent>, chunks: Seq<Seq<u8>>) -> bool {
    &&& events.len() == chunks.len()
    &&& forall|i: int|
        0 <= i < events.len() ==> (#[trigger] events[i]).event == EventModel::Chunk(chunks[i])
}

/// A fetch in progress.
#[derive(Debug)]
pub struct FetchSession {
    stage: FetchStage,
    received: Vec<u8>,
    strict: bool,
    timeout_ms: u64,
}

impl View for FetchSession {
    type V = SessionModel;

    closed spec fn view(&self) -> SessionModel {
        SessionModel {
            stage: self.stage,
            received: self.received@,
            strict: self.strict,
            timeout: self.timeout_ms as nat,
        }
    }
}

/// A fetch after an event: still in progress, or finished with its result.
#[derive(Debug)]
pub enum Fetch {
    Pending(FetchSession),
    Finished(Result<String, FetchError>),
}

impl View for Fetch {
    type V = FetchModel;

    open spec fn view(&self) -> FetchModel {
        match self {
            Fetch::Pending(session) => FetchModel::Pending(session@),
            Fetch::Finished(result) => FetchModel::Finished(result_view(*result)),
        }
    }
}

impl FetchSession {
    /// A fetch at its start: the driver is to open the connection. The
    /// whole fetch is allowed `timeout_ms` milliseconds from now. With
    /// `strict`, a response that is not UTF-8 is an error; without, it is
    /// decoded lossily.
    pub fn begin(strict: bool, timeout_ms: u64) -> (session: Self)
        ensures
            session@ == SessionModel::begin(strict, timeout_ms as nat),
    {
        FetchSession { stage: FetchStage::Connecting, received: Vec::new(), strict, timeout_ms }
    }

    /// The stage the fetch is in, which tells the driver what to do next.
    pub fn stage(&self) -> (stage: FetchStage)
        ensures
            stage == self@.stage,
    {
        self.stage
    }

    /// Milliseconds allowed for the whole fetch, counted from its start.
    pub fn timeout_ms(&self) -> (timeout: u64)
        ensures
            timeout == self@.timeout,
    {
        self.timeout_ms
    }

    /// Number of response bytes received so far.
    pub fn received_len(&self) -> (n: usize)
        ensures
            n == self@.received.len(),
    {
        self.received.len()
    }

    /// Takes one event, with the milliseconds that had passed since the
    /// fetch began when it happened, and returns the fetch after it.
    pub fn advance(self, event: FetchEvent, elapsed_ms: u64) -> (next: Fetch)
        ensures
            next@ == self@.advance(event@, elapsed_ms as nat),
    {
        let FetchSession { stage, received, strict, timeout_ms } = self;
        if elapsed_ms >= timeout_ms {
            return Fetch::Finished(Err(FetchError::Timeout));
        }
        match event {
            FetchEvent::DeadlineElapsed => Fetch::Finished(Err(FetchError::Timeout)),
            FetchEvent::Connected => match stage {
                FetchStage::Connecting => Fetch::Pending(
                    FetchSession { stage: FetchStage::Writing, received, strict, timeout_ms },
                ),
                FetchStage::Writing => Fetch::Finished(Err(FetchError::WriteFailed)),
                FetchStage::Reading => Fetch::Finished(Err(FetchError::ReadFailed)),
            },
            FetchEvent::Written => match stage {
                FetchStage::Connecting => Fetch::Finished(Err(FetchError::ConnectFailed)),
                FetchStage::Writing => Fetch::Pending(
                    FetchSession { stage: FetchStage::Reading, received, strict, timeout_ms },
                ),
                FetchStage::Reading => Fetch::Finished(Err(FetchError::ReadFailed)),
            },
            FetchEvent::Chunk(bytes) => match stage {
                FetchStage::Connecting => Fetch::Finished(Err(FetchError::ConnectFailed)),
                FetchStage::Writing => Fetch::Finished(Err(FetchError::WriteFailed)),
                FetchStage::Reading => {
                    let mut received = received;
                    let mut bytes = bytes;
                    received.append(&mut bytes);
                    Fetch::Pending(
                        FetchSession { stage: FetchStage::Reading, received, strict, timeout_ms },
                    )
                },
            },
            FetchEvent::EndOfStream => match stage {
                FetchStage::Connecting => Fetch::Finished(Err(FetchError::ConnectFailed)),
                FetchStage::Writing => Fetch::Finished(Err(FetchError::WriteFailed)),
                FetchStage::Reading => Fetch::Finished(decode_response(received, strict)),
            },
            FetchEvent::ConnectFailed | FetchEvent::WriteFailed | FetchEvent::ReadFailed => {
                match stage {
                    FetchStage::Connecting => Fetch::Finished(Err(FetchError::ConnectFailed)),
                    FetchStage::Writing => Fetch::Finished(Err(FetchError::WriteFailed)),
                    FetchStage::Reading => Fetch::Finished(Err(FetchError::ReadFailed)),
                }
            },
        }
    }
}

/// A fetch never outlives its deadline. Whatever stage it is in and
/// whatever it has received: the deadline timer finishes it with a timeout,
/// and so does any event that comes at or after the deadline, even one that
/// reports success.
pub proof fn lemma_deadline_times_out(session: SessionModel, event: EventModel, elapsed: nat)
    ensures
        session.advance(EventModel::DeadlineElapsed, elapsed) == FetchModel::Finished(
            Err(FetchError::Timeout),
        ),
        elapsed >= session.timeout ==> session.advance(event, elapsed) == FetchModel::Finished(
            Err(FetchError::Timeout),
        ),
{
}

/// A fetch finishes with anything but a timeout only on an event that came
/// before the deadline.
pub proof fn lemma_answer_comes_in_time(session: SessionModel, event: EventModel, elapsed: nat)
    requires
        session.advance(event, elapsed) is Finished,
        session.advance(event, elapsed) != FetchModel::Finished(Err(FetchError::Timeout)),
    ensures
        elapsed < session.timeout,
{
}

/// A finished fetch stays finished with the same result, whatever events
/// follow.
pub proof fn lemma_finished_is_final(
    result: Result<Seq<char>, FetchError>,
    events: Seq<TimedEvent>,
)
    ensures
        FetchModel::Finished(result).run(events) == FetchModel::Finished(result),
    decreases events.len(),
{
    if events.len() > 0 {
        lemma_finished_is_final(result, events.drop_last());
    }
}

/// Running over a sequence of events is running over its first part and
/// then over the rest.
pub proof fn lemma_run_split(fetch: FetchModel, first: Seq<TimedEvent>, rest: Seq<TimedEvent>)
    ensures
        fetch.run(first + rest) == fetch.run(first).run(rest),
    decreases rest.len(),
{
    if rest.len() == 0 {
        assert(first + rest =~= first);
    } else {
        lemma_run_split(fetch, first, rest.drop_last());
        assert((first + rest).drop_last() =~= first + rest.drop_last());
        assert((first + rest).last() == rest.last());
    }
}

/// While reading, the chunks that arrive in time are kept in their order of
/// arrival.
pub proof fn lemma_chunks_accumulate(
    session: SessionModel,
    events: Seq<TimedEvent>,
    chunks: Seq<Seq<u8>>,
)
    requires
        session.stage == FetchStage::Reading,
        reports_chunks(events, chunks),
        all_in_time(events, session.timeout),
    ensures
        FetchModel::Pending(session).run(events) == FetchModel::Pending(
            SessionModel { received: session.received + concat(chunks), ..session },
        ),
    decreases events.len(),
{
    if events.len() == 0 {
        assert(session.received + concat(chunks) =~= session.received);
    } else {
        let earlier = events.drop_last();
        let fewer = chunks.drop_last();
        assert(reports_chunks(earlier, fewer)) by {
            assert forall|i: int| 0 <= i < earlier.len() implies (#[trigger] earlier[i]).event
                == EventModel::Chunk(fewer[i]) by {
                assert(earlier[i] == events[i]);
            }
        }
        assert(all_in_time(earlier, session.timeout)) by {
            assert forall|i: int| 0 <= i < earlier.len() implies (#[trigger] earlier[i]).elapsed
                < session.timeout by {
                assert(earlier[i] == events[i]);
            }
        }
        lemma_chunks_accumulate(session, earlier, fewer);
        assert(events.last() == events[events.len() - 1]);
        assert(events.last().event == EventModel::Chunk(chunks.last()));
        assert(session.received + concat(fewer) + chunks.last() =~= session.received + concat(
            chunks,
        ));
    }
}

/// The complete exchange, all of it in time: connected, written, any
/// chunks, then the end of the stream. The fetch finishes with the decoding
/// of all chunks in order.
pub proof fn lemma_complete_exchange(
    strict: bool,
    timeout: nat,
    connected: nat,
    written: nat,
    reading: Seq<TimedEvent>,
    chunks: Seq<Seq<u8>>,
    closed: nat,
)
    requires
        connected < timeout,
        written < timeout,
        closed < timeout,
        reports_chunks(reading, chunks),
        all_in_time(reading, timeout),
    ensures
        FetchModel::Pending(SessionModel::begin(strict, timeout)).run(
            seq![
                TimedEvent { event: EventModel::Connected, elapsed: connected },
                TimedEvent { event: EventModel::Written, elapsed: written },
            ] + reading + seq![TimedEvent { event: EventModel::EndOfStream, elapsed: closed }],
        ) == FetchModel::Finished(decoded(concat(chunks), strict)),
{
    let start = FetchModel::Pending(SessionModel::begin(strict, timeout));
    let head = seq![
        TimedEvent { event: EventModel::Connected, elapsed: connected },
        TimedEvent { event: EventModel::Written, elapsed: written },
    ];
    let session = SessionModel {
        stage: FetchStage::Reading,
        ..SessionModel::begin(strict, timeout)
    };
    assert(start.run(head) == FetchModel::Pending(session)) by {
        assert(head.drop_last() =~= seq![
            TimedEvent { event: EventModel::Connected, elapsed: connected },
        ]);
        assert(head.drop_last().drop_last() =~= Seq::<TimedEvent>::empty());
        reveal_with_fuel(FetchModel::run, 3);
    }
    lemma_run_split(start, head, reading);
    lemma_chunks_accumulate(session, reading, chunks);
    let last = TimedEvent { event: EventModel::EndOfStream, elapsed: closed };
    let all = head + reading + seq![last];
    assert(all.drop_last() =~= head + reading);
    assert(all.last() == last);
    assert(Seq::<u8>::empty() + concat(chunks) =~= concat(chunks));
}

} // verus!
