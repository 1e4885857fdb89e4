//! The streaming relay: an incremental decoder of the text event-stream wire
//! format, the table of active relay sessions and the life cycle of one
//! session.
//!
//! The decoder is a byte-at-a-time automaton. It keeps the bytes of the line
//! that has not been terminated yet and the event type of the block in
//! progress; a line feed interprets the line kept so far. Because the
//! automaton reads one byte at a time, how a stream is cut into chunks cannot
//! change what is decoded from it.

use vstd::prelude::*;
use vstd::string::*;
use crate::table::Table;

verus! {

/// The byte that ends a line.
pub const LINE_FEED: u8 = 10;

/// The byte of which one is dropped at the end of a line.
pub const CARRIAGE_RETURN: u8 = 13;

/// The byte that starts a comment line.
pub const COLON: u8 = 58;

/// The event type of a block that names none: the bytes of `message`.
pub open spec fn default_event_type() -> Seq<u8> {
    seq![109u8, 101u8, 115u8, 115u8, 97u8, 103u8, 101u8]
}

/// The marker of a line that names the event type: the bytes of `event: `.
pub open spec fn event_marker() -> Seq<u8> {
    seq![101u8, 118u8, 101u8, 110u8, 116u8, 58u8, 32u8]
}

/// The marker of a line that carries a payload: the bytes of `data: `.
pub open spec fn data_marker() -> Seq<u8> {
    seq![100u8, 97u8, 116u8, 97u8, 58u8, 32u8]
}

/// Whether `line` begins with `marker`.
pub open spec fn starts_with(line: Seq<u8>, marker: Seq<u8>) -> bool {
    marker.len() <= line.len() && line.subrange(0, marker.len() as int) == marker
}

/// `raw` without one trailing carriage return, if it ends in one.
pub open spec fn trim_carriage_return(raw: Seq<u8>) -> Seq<u8> {
    if raw.len() > 0 && raw.last() == CARRIAGE_RETURN {
        raw.drop_last()
    } else {
        raw
    }
}

/// One decoded event, as sequences of bytes.
pub struct EventView {
    pub event: Seq<u8>,
    pub data: Seq<u8>,
}

/// What the decoder remembers between two bytes.
pub struct DecoderView {
    /// The bytes received since the last line feed.
    pub pending: Seq<u8>,
    /// The event type of the block in progress.
    pub event_type: Seq<u8>,
}

/// The decoder before the first byte of a stream.
pub open spec fn initial_decoder() -> DecoderView {
    DecoderView { pending: Seq::empty(), event_type: default_event_type() }
}

/// The event type after the complete line `raw` (without its line feed), when
/// the block in progress had the type `event_type`.
pub open spec fn event_type_after_line(event_type: Seq<u8>, raw: Seq<u8>) -> Seq<u8> {
    let line = trim_carriage_return(raw);
    if line.len() == 0 {
        default_event_type()
    } else if line[0] == COLON {
        event_type
    } else if starts_with(line, event_marker()) {
        line.subrange(event_marker().len() as int, line.len() as int)
    } else {
        event_type
    }
}

/// The events that the complete line `raw` (without its line feed) emits:
/// one for a payload line, none for any other.
pub open spec fn events_of_line(event_type: Seq<u8>, raw: Seq<u8>) -> Seq<EventView> {
    let line = trim_carriage_return(raw);
    if line.len() > 0 && line[0] != COLON && !starts_with(line, event_marker()) && starts_with(
        line,
        data_marker(),
    ) {
        seq![
            EventView {
                event: event_type,
                data: line.subrange(data_marker().len() as int, line.len() as int),
            },
        ]
    } else {
        Seq::empty()
    }
}

/// The decoder after one more byte.
pub open spec fn decoder_after_byte(d: DecoderView, b: u8) -> DecoderView {
    if b == LINE_FEED {
        DecoderView {
            pending: Seq::empty(),
            event_type: event_type_after_line(d.event_type, d.pending),
        }
    } else {
        DecoderView { pending: d.pending.push(b), event_type: d.event_type }
    }
}

/// The events that one more byte emits.
pub open spec fn events_of_byte(d: DecoderView, b: u8) -> Seq<EventView> {
    if b == LINE_FEED {
        events_of_line(d.event_type, d.pending)
    } else {
        Seq::empty()
    }
}

/// The decoder after the bytes `bytes`, received in any number of chunks.
pub open spec fn decoder_after(d: DecoderView, bytes: Seq<u8>) -> DecoderView
    decreases bytes.len(),
{
    if bytes.len() == 0 {
        d
    } else {
        decoder_after_byte(decoder_after(d, bytes.drop_last()), bytes.last())
    }
}

/// The events emitted while the decoder `d` receives the bytes `bytes`, in the
/// order of their lines.
pub open spec fn events_of(d: DecoderView, bytes: Seq<u8>) -> Seq<EventView>
    decreases bytes.len(),
{
    if bytes.len() == 0 {
        Seq::empty()
    } else {
        events_of(d, bytes.drop_last()) + events_of_byte(
            decoder_after(d, bytes.drop_last()),
            bytes.last(),
        )
    }
}

/// All bytes of a sequence of chunks, in order.
pub open spec fn concat_chunks(chunks: Seq<Seq<u8>>) -> Seq<u8>
    decreases chunks.len(),
{
    if chunks.len() == 0 {
        Seq::empty()
    } else {
        concat_chunks(chunks.drop_last()) + chunks.last()
    }
}

/// The decoder after it was fed the chunks one by one.
pub open spec fn decoder_after_chunks(d: DecoderView, chunks: Seq<Seq<u8>>) -> DecoderView
    decreases chunks.len(),
{
    if chunks.len() == 0 {
        d
    } else {
        decoder_after(decoder_after_chunks(d, chunks.drop_last()), chunks.last())
    }
}

/// The events emitted while the decoder is fed the chunks one by one.
pub open spec fn events_of_chunks(d: DecoderView, chunks: Seq<Seq<u8>>) -> Seq<EventView>
    decreases chunks.len(),
{
    if chunks.len() == 0 {
        Seq::empty()
    } else {
        events_of_chunks(d, chunks.drop_last()) + events_of(
            decoder_after_chunks(d, chunks.drop_last()),
            chunks.last(),
        )
    }
}

/// One decoded event: the event type of its block and its payload.
pub struct SseEvent {
    pub event: Vec<u8>,
    pub data: Vec<u8>,
}

impl View for SseEvent {
    type V = EventView;

    open spec fn view(&self) -> EventView {
        EventView { event: self.event@, data: self.data@ }
    }
}

/// The views of a sequence of events.
pub open spec fn events_view(events: Seq<SseEvent>) -> Seq<EventView> {
    events.map_values(|e: SseEvent| e@)
}

/// The decoder of one relay session.
pub struct SseDecoder {
    buf: Vec<u8>,
    current_event: Vec<u8>,
}

impl View for SseDecoder {
    type V = DecoderView;

    closed spec fn view(&self) -> DecoderView {
        DecoderView { pending: self.buf@, event_type: self.current_event@ }
    }
}

/// The default event type, `message`.
pub fn default_event() -> (name: Vec<u8>)
    ensures
        name@ == default_event_type(),
{
    let name: Vec<u8> = vec![109u8, 101u8, 115u8, 115u8, 97u8, 103u8, 101u8];
    assert(name@ =~= default_event_type());
    name
}

/// A copy of the bytes of `bytes` from `from` up to `to`.
fn copy_range(bytes: &Vec<u8>, from: usize, to: usize) -> (part: Vec<u8>)
    requires
        from <= to <= bytes.len(),
    ensures
        part@ == bytes@.subrange(from as int, to as int),
{
    let mut part: Vec<u8> = Vec::new();
    let mut i: usize = from;
    while i < to
        invariant
            from <= i <= to <= bytes.len(),
            part@ == bytes@.subrange(from as int, i as int),
        decreases to - i,
    {
        part.push(bytes[i]);
        i += 1;
        assert(part@ =~= bytes@.subrange(from as int, i as int));
    }
    part
}

/// Whether the first `len` bytes of `bytes` begin with `event: `.
fn is_event_line(bytes: &Vec<u8>, len: usize) -> (found: bool)
    requires
        len <= bytes.len(),
    ensures
        found == starts_with(bytes@.subrange(0, len as int), event_marker()),
{
    let found = len >= 7 && bytes[0] == 101 && bytes[1] == 118 && bytes[2] == 101 && bytes[3]
        == 110 && bytes[4] == 116 && bytes[5] == 58 && bytes[6] == 32;
    proof {
        let line = bytes@.subrange(0, len as int);
        if found {
            assert(line.subrange(0, 7) =~= event_marker());
        } else if len >= 7 {
            let head = line.subrange(0, 7);
            assert(head[0] == bytes[0] && head[1] == bytes[1] && head[2] == bytes[2] && head[3]
                == bytes[3] && head[4] == bytes[4] && head[5] == bytes[5] && head[6]
                == bytes[6]);
        }
    }
    found
}

/// Whether the first `len` bytes of `bytes` begin with `data: `.
fn is_data_line(bytes: &Vec<u8>, len: usize) -> (found: bool)
    requires
        len <= bytes.len(),
    ensures
        found == starts_with(bytes@.subrange(0, len as int), data_marker()),
{
    let found = len >= 6 && bytes[0] == 100 && bytes[1] == 97 && bytes[2] == 116 && bytes[3]
        == 97 && bytes[4] == 58 && bytes[5] == 32;
    proof {
        let line = bytes@.subrange(0, len as int);
        if found {
            assert(line.subrange(0, 6) =~= data_marker());
        } else if len >= 6 {
            let head = line.subrange(0, 6);
            assert(head[0] == bytes[0] && head[1] == bytes[1] && head[2] == bytes[2] && head[3]
                == bytes[3] && head[4] == bytes[4] && head[5] == bytes[5]);
        }
    }
    found
}

impl SseDecoder {
    /// A decoder at the start of a stream: nothing pending, the default event
    /// type.
    pub fn new() -> (decoder: SseDecoder)
        ensures
            decoder@ == initial_decoder(),
    {
        SseDecoder { buf: Vec::new(), current_event: default_event() }
    }

    /// The bytes received since the last line feed.
    pub fn pending(&self) -> (bytes: &Vec<u8>)
        ensures
            bytes@ == self@.pending,
    {
        &self.buf
    }

    /// The event type of the block in progress.
    pub fn event_type(&self) -> (name: &Vec<u8>)
        ensures
            name@ == self@.event_type,
    {
        &self.current_event
    }

    /// Interprets the pending bytes as one complete line and forgets them.
    fn end_line(&mut self, events: &mut Vec<SseEvent>)
        ensures
            final(self)@ == decoder_after_byte(old(self)@, LINE_FEED),
            events_view(final(events)@) == events_view(old(events)@) + events_of_byte(
                old(self)@,
                LINE_FEED,
            ),
    {
        let ghost raw = self.buf@;
        let ghost before = events@;
        let mut len: usize = self.buf.len();
        if len > 0 && self.buf[len - 1] == CARRIAGE_RETURN {
            len -= 1;
        }
        assert(self.buf@.subrange(0, len as int) =~= trim_carriage_return(raw));
        if len == 0 {
            self.current_event = default_event();
        } else if self.buf[0] == COLON {
        } else if is_event_line(&self.buf, len) {
            self.current_event = copy_range(&self.buf, 7, len);
            assert(self.current_event@ =~= trim_carriage_return(raw).subrange(7, len as int));
        } else if is_data_line(&self.buf, len) {
            let data = copy_range(&self.buf, 6, len);
            assert(data@ =~= trim_carriage_return(raw).subrange(6, len as int));
            let event = self.current_event.clone();
            events.push(SseEvent { event, data });
        }
        self.buf.clear();
        assert(events_view(events@) =~= events_view(before) + events_of_byte(
            old(self)@,
            LINE_FEED,
        ));
    }

    /// Feeds one chunk of the stream to the decoder and returns the events of
    /// the lines that the chunk completes, in order. Bytes after the last line
    /// feed stay pending for the next chunk.
    pub fn feed(&mut self, chunk: &[u8]) -> (events: Vec<SseEvent>)
        ensures
            final(self)@ == decoder_after(old(self)@, chunk@),
            events_view(events@) == events_of(old(self)@, chunk@),
    {
        let mut events: Vec<SseEvent> = Vec::new();
        let mut i: usize = 0;
        assert(events_view(events@) =~= Seq::<EventView>::empty());
        while i < chunk.len()
            invariant
                i <= chunk.len(),
                self@ == decoder_after(old(self)@, chunk@.take(i as int)),
                events_view(events@) == events_of(old(self)@, chunk@.take(i as int)),
            decreases chunk.len() - i,
        {
            let b = chunk[i];
            proof {
                assert(chunk@.take(i + 1).drop_last() =~= chunk@.take(i as int));
                assert(chunk@.take(i + 1).last() == b);
            }
            if b == LINE_FEED {
                self.end_line(&mut events);
            } else {
                self.buf.push(b);
            }
            i += 1;
        }
        assert(chunk@.take(i as int) =~= chunk@);
        events
    }
}

/// Feeding `a` and then `b` leaves the decoder where feeding `a + b` at once
/// leaves it, and emits the same events in the same order.
pub proof fn lemma_feed_concat(d: DecoderView, a: Seq<u8>, b: Seq<u8>)
    ensures
        decoder_after(d, a + b) == decoder_after(decoder_after(d, a), b),
        events_of(d, a + b) == events_of(d, a) + events_of(decoder_after(d, a), b),
    decreases b.len(),
{
    if b.len() == 0 {
        assert(a + b =~= a);
    } else {
        lemma_feed_concat(d, a, b.drop_last());
        assert((a + b).drop_last() =~= a + b.drop_last());
        assert((a + b).last() == b.last());
    }
}

/// However a byte sequence is cut into chunks, mid-line and mid-marker cuts
/// included, feeding the chunks one by one emits the events that feeding the
/// whole sequence as one chunk emits, in the same order, and leaves the decoder
/// in the same state.
pub proof fn lemma_chunking_is_invisible(d: DecoderView, chunks: Seq<Seq<u8>>)
    ensures
        decoder_after_chunks(d, chunks) == decoder_after(d, concat_chunks(chunks)),
        events_of_chunks(d, chunks) == events_of(d, concat_chunks(chunks)),
    decreases chunks.len(),
{
    if chunks.len() > 0 {
        lemma_chunking_is_invisible(d, chunks.drop_last());
        lemma_feed_concat(d, concat_chunks(chunks.drop_last()), chunks.last());
    }
}

/// A complete line: bytes without a line feed, followed by one. Fed to a
/// decoder that holds no partial line, it is interpreted as a whole.
pub proof fn lemma_feed_line(d: DecoderView, line: Seq<u8>)
    requires
        forall|i: int| 0 <= i < line.len() ==> line[i] != LINE_FEED,
    ensures
        decoder_after(d, line).pending == d.pending + line,
        decoder_after(d, line).event_type == d.event_type,
        events_of(d, line) == Seq::<EventView>::empty(),
        decoder_after(d, line.push(LINE_FEED)) == (DecoderView {
            pending: Seq::empty(),
            event_type: event_type_after_line(d.event_type, d.pending + line),
        }),
        events_of(d, line.push(LINE_FEED)) == events_of_line(d.event_type, d.pending + line),
    decreases line.len(),
{
    if line.len() == 0 {
        assert(d.pending + line =~= d.pending);
    } else {
        lemma_feed_line(d, line.drop_last());
        assert(d.pending + line =~= (d.pending + line.drop_last()).push(line.last()));
        assert(line.last() != LINE_FEED);
    }
    let ended = line.push(LINE_FEED);
    assert(ended.drop_last() =~= line);
    assert(ended.last() == LINE_FEED);
    assert(decoder_after(d, ended) == decoder_after_byte(decoder_after(d, line), LINE_FEED));
    assert(decoder_after(d, line) == (DecoderView {
        pending: d.pending + line,
        event_type: d.event_type,
    }));
}

/// The name of the channel on which the events of type `event_type` of the
/// session `tab_id` are published.
pub open spec fn channel_name(tab_id: Seq<char>, event_type: Seq<char>) -> Seq<char> {
    "stream:"@ + tab_id + ":"@ + event_type
}

/// The name of the channel on which the events of type `event_type` of the
/// session `tab_id` are published.
pub fn relay_channel(tab_id: &str, event_type: &str) -> (name: String)
    ensures
        name@ == channel_name(tab_id@, event_type@),
{
    let mut name = String::from_str("stream:");
    name.append(tab_id);
    name.append(":");
    name.append(event_type);
    name
}

/// Where a relay session stands.
#[derive(Clone, Copy, Debug, PartialEq, Eq)]
pub enum RelayPhase {
    Idle,
    Connecting,
    Streaming,
    Completed,
    Cancelled,
    Errored,
}

/// What happens to a relay session.
#[derive(Clone, Copy, Debug)]
pub enum RelayInput<'a> {
    /// The request to the worker is sent.
    Open,
    /// The worker answered and the stream is open.
    Connected,
    /// The connection could not be made.
    ConnectFailed,
    /// A chunk of the stream arrived.
    Chunk(&'a [u8]),
    /// The worker closed the stream.
    End,
    /// Reading the stream failed.
    ReadFailed,
    /// The session was cancelled.
    Cancel,
}

/// What happens to a relay session, in specifications.
pub enum RelayInputView {
    Open,
    Connected,
    ConnectFailed,
    Chunk(Seq<u8>),
    End,
    ReadFailed,
    Cancel,
}

impl<'a> View for RelayInput<'a> {
    type V = RelayInputView;

    open spec fn view(&self) -> RelayInputView {
        match *self {
            RelayInput::Open => RelayInputView::Open,
            RelayInput::Connected => RelayInputView::Connected,
            RelayInput::ConnectFailed => RelayInputView::ConnectFailed,
            RelayInput::Chunk(bytes) => RelayInputView::Chunk(bytes@),
            RelayInput::End => RelayInputView::End,
            RelayInput::ReadFailed => RelayInputView::ReadFailed,
            RelayInput::Cancel => RelayInputView::Cancel,
        }
    }
}

/// Whether a session in `phase` is over.
pub open spec fn is_terminal(phase: RelayPhase) -> bool {
    phase is Completed || phase is Cancelled || phase is Errored
}

/// The phase after `input`. A session that is over stays where it is; a
/// cancellation ends any other; an input that the phase does not expect
/// changes nothing.
pub open spec fn phase_after(phase: RelayPhase, input: RelayInputView) -> RelayPhase {
    if is_terminal(phase) {
        phase
    } else if input is Cancel {
        RelayPhase::Cancelled
    } else {
        match (phase, input) {
            (RelayPhase::Idle, RelayInputView::Open) => RelayPhase::Connecting,
            (RelayPhase::Connecting, RelayInputView::Connected) => RelayPhase::Streaming,
            (RelayPhase::Connecting, RelayInputView::ConnectFailed) => RelayPhase::Errored,
            (RelayPhase::Streaming, RelayInputView::End) => RelayPhase::Completed,
            (RelayPhase::Streaming, RelayInputView::ReadFailed) => RelayPhase::Errored,
            _ => phase,
        }
    }
}

/// What a relay session is: its phase and its decoder.
pub struct SessionView {
    pub phase: RelayPhase,
    pub decoder: DecoderView,
}

/// The session after `input`: only a chunk that arrives while the session
/// streams reaches the decoder.
pub open spec fn session_after(s: SessionView, input: RelayInputView) -> SessionView {
    SessionView {
        phase: phase_after(s.phase, input),
        decoder: match input {
            RelayInputView::Chunk(bytes) if s.phase is Streaming => decoder_after(
                s.decoder,
                bytes,
            ),
            _ => s.decoder,
        },
    }
}

/// The events that `input` makes the session publish: those of a chunk that
/// arrives while the session streams, and none else.
pub open spec fn session_events(s: SessionView, input: RelayInputView) -> Seq<EventView> {
    match input {
        RelayInputView::Chunk(bytes) if s.phase is Streaming => events_of(s.decoder, bytes),
        _ => Seq::empty(),
    }
}

/// A session that is over stays over, whatever comes, and publishes nothing
/// more. In particular a cancelled session delivers no event.
pub proof fn lemma_terminal_is_final(s: SessionView, input: RelayInputView)
    requires
        is_terminal(s.phase),
    ensures
        session_after(s, input) == s,
        session_events(s, input) == Seq::<EventView>::empty(),
{
}

/// A cancellation ends a session that is not over at once, whatever its
/// phase, and what was pending is not decoded.
pub proof fn lemma_cancel_takes_precedence(s: SessionView)
    requires
        !is_terminal(s.phase),
    ensures
        session_after(s, RelayInputView::Cancel).phase == RelayPhase::Cancelled,
        session_events(s, RelayInputView::Cancel) == Seq::<EventView>::empty(),
{
}

/// One relay session: the phase and the decoder of its stream.
pub struct RelaySession {
    phase: RelayPhase,
    decoder: SseDecoder,
}

impl View for RelaySession {
    type V = SessionView;

    closed spec fn view(&self) -> SessionView {
        SessionView { phase: self.phase, decoder: self.decoder@ }
    }
}

impl RelaySession {
    /// A session that has not begun: idle, with a fresh decoder.
    pub fn new() -> (session: RelaySession)
        ensures
            session@ == (SessionView { phase: RelayPhase::Idle, decoder: initial_decoder() }),
    {
        RelaySession { phase: RelayPhase::Idle, decoder: SseDecoder::new() }
    }

    /// The phase of the session.
    pub fn phase(&self) -> (phase: RelayPhase)
        ensures
            phase == self@.phase,
    {
        self.phase
    }

    /// Whether the session is over.
    pub fn is_over(&self) -> (over: bool)
        ensures
            over == is_terminal(self@.phase),
    {
        match self.phase {
            RelayPhase::Completed | RelayPhase::Cancelled | RelayPhase::Errored => true,
            _ => false,
        }
    }

    /// Takes `input` and returns the events to publish, in order.
    pub fn step(&mut self, input: RelayInput) -> (events: Vec<SseEvent>)
        ensures
            final(self)@ == session_after(old(self)@, input@),
            events_view(events@) == session_events(old(self)@, input@),
    {
        let mut events: Vec<SseEvent> = Vec::new();
        assert(events_view(events@) =~= Seq::<EventView>::empty());
        if self.is_over() {
            return events;
        }
        match (self.phase, input) {
            (_, RelayInput::Cancel) => {
                self.phase = RelayPhase::Cancelled;
            },
            (RelayPhase::Idle, RelayInput::Open) => {
                self.phase = RelayPhase::Connecting;
            },
            (RelayPhase::Connecting, RelayInput::Connected) => {
                self.phase = RelayPhase::Streaming;
            },
            (RelayPhase::Connecting, RelayInput::ConnectFailed) => {
                self.phase = RelayPhase::Errored;
            },
            (RelayPhase::Streaming, RelayInput::Chunk(bytes)) => {
                events = self.decoder.feed(bytes);
            },
            (RelayPhase::Streaming, RelayInput::End) => {
                self.phase = RelayPhase::Completed;
            },
            (RelayPhase::Streaming, RelayInput::ReadFailed) => {
                self.phase = RelayPhase::Errored;
            },
            _ => {},
        }
        events
    }
}

/// One active relay: the handle that cancels it and the serial number that
/// tells it from the other relays of its session.
#[derive(Debug, PartialEq, Eq)]
pub struct SseConnection<C> {
    pub cancel_tx: C,
    pub serial: u64,
}

/// What the relay table holds: the active relay of each session, and the
/// serial number of the relay that starts next.
pub struct RelayTableView<C> {
    pub connections: Map<Seq<char>, SseConnection<C>>,
    pub next_serial: u64,
}

/// The table of active relays, at most one per session.
pub struct SseProxyState<C> {
    connections: Table<SseConnection<C>>,
    next_serial: u64,
}

impl<C> View for SseProxyState<C> {
    type V = RelayTableView<C>;

    closed spec fn view(&self) -> RelayTableView<C> {
        RelayTableView { connections: self.connections.map(), next_serial: self.next_serial }
    }
}

/// The serial number after `serial`.
pub open spec fn serial_after(serial: u64) -> u64 {
    if serial == u64::MAX {
        0
    } else {
        (serial + 1) as u64
    }
}

/// The table after a relay with the cancel handle `cancel_tx` started for
/// `tab_id`: the new relay is the session's only one.
pub open spec fn after_relay_start<C>(
    s: RelayTableView<C>,
    tab_id: Seq<char>,
    cancel_tx: C,
) -> RelayTableView<C> {
    RelayTableView {
        connections: s.connections.insert(
            tab_id,
            SseConnection { cancel_tx, serial: s.next_serial },
        ),
        next_serial: serial_after(s.next_serial),
    }
}

/// Whether the active relay of `tab_id` is the relay `serial`.
pub open spec fn is_active_relay<C>(s: RelayTableView<C>, tab_id: Seq<char>, serial: u64) -> bool {
    s.connections.dom().contains(tab_id) && s.connections[tab_id].serial == serial
}

/// The table after the relay `serial` of `tab_id` ended by itself: its entry
/// leaves, unless the session has another relay by now.
pub open spec fn after_relay_end<C>(
    s: RelayTableView<C>,
    tab_id: Seq<char>,
    serial: u64,
) -> RelayTableView<C> {
    if is_active_relay(s, tab_id, serial) {
        RelayTableView { connections: s.connections.remove(tab_id), next_serial: s.next_serial }
    } else {
        s
    }
}

/// The connection of `tab_id`, if the session has one.
pub open spec fn connection_of<C>(s: RelayTableView<C>, tab_id: Seq<char>) -> Option<
    SseConnection<C>,
> {
    if s.connections.dom().contains(tab_id) {
        Some(s.connections[tab_id])
    } else {
        None
    }
}

/// A relay that starts for a session with an active relay takes its place:
/// the session's one entry is the new relay, the relay handed back for
/// cancelling is the earlier one, and the earlier relay can no longer end the
/// session's entry.
pub proof fn lemma_restart_replaces_relay<C>(
    s: RelayTableView<C>,
    tab_id: Seq<char>,
    first: C,
    second: C,
)
    ensures
        connection_of(after_relay_start(s, tab_id, first), tab_id) == Some(
            SseConnection { cancel_tx: first, serial: s.next_serial },
        ),
        connection_of(
            after_relay_start(after_relay_start(s, tab_id, first), tab_id, second),
            tab_id,
        ) == Some(SseConnection { cancel_tx: second, serial: serial_after(s.next_serial) }),
        after_relay_start(
            after_relay_start(s, tab_id, first),
            tab_id,
            second,
        ).connections.dom() == s.connections.dom().insert(tab_id),
        after_relay_end(
            after_relay_start(after_relay_start(s, tab_id, first), tab_id, second),
            tab_id,
            s.next_serial,
        ) == after_relay_start(after_relay_start(s, tab_id, first), tab_id, second),
{
    let twice = after_relay_start(after_relay_start(s, tab_id, first), tab_id, second);
    assert(twice.connections.dom() =~= s.connections.dom().insert(tab_id));
}

impl<C> SseProxyState<C> {
    /// The invariant of the table: one relay per session at most.
    pub closed spec fn wf(&self) -> bool {
        self.connections.wf()
    }

    /// A table without relays.
    pub fn new() -> (state: SseProxyState<C>)
        ensures
            state.wf(),
            state@.connections == Map::<Seq<char>, SseConnection<C>>::empty(),
            state@.next_serial == 0,
    {
        SseProxyState { connections: Table::new(), next_serial: 0 }
    }

    /// The serial number of the active relay of `tab_id`, if the session has
    /// one.
    pub fn active_serial(&self, tab_id: &str) -> (serial: Option<u64>)
        requires
            self.wf(),
        ensures
            serial == match connection_of(self@, tab_id@) {
                Some(c) => Some(c.serial),
                None => None,
            },
    {
        match self.connections.get(tab_id) {
            Some(c) => Some(c.serial),
            None => None,
        }
    }

    /// The number of active relays.
    pub fn len(&self) -> (count: usize)
        requires
            self.wf(),
        ensures
            self@.connections.dom().finite(),
            count == self@.connections.dom().len(),
    {
        proof {
            self.connections.lemma_order();
        }
        self.connections.len()
    }
}

/// Starts a relay for `tab_id` with the cancel handle `cancel_tx`. Returns
/// the serial number of the new relay and, where the session had an active
/// relay, that relay: the new one has taken its place in the table, and the
/// old one is to be cancelled before the new one streams.
pub fn cmd_start_sse_proxy<C>(state: &mut SseProxyState<C>, tab_id: String, cancel_tx: C) -> (started:
    (u64, Option<SseConnection<C>>))
    requires
        old(state).wf(),
    ensures
        final(state).wf(),
        final(state)@ == after_relay_start(old(state)@, tab_id@, cancel_tx),
        started.0 == old(state)@.next_serial,
        started.1 == connection_of(old(state)@, tab_id@),
{
    let serial = state.next_serial;
    state.next_serial = serial.wrapping_add(1);
    let displaced = state.connections.insert(tab_id, SseConnection { cancel_tx, serial });
    (serial, displaced)
}

/// Stops the relay of `tab_id`: takes it out of the table and returns it, to
/// be cancelled. Does nothing for a session without a relay.
pub fn cmd_stop_sse_proxy<C>(state: &mut SseProxyState<C>, tab_id: &str) -> (stopped: Option<
    SseConnection<C>,
>)
    requires
        old(state).wf(),
    ensures
        final(state).wf(),
        final(state)@.next_serial == old(state)@.next_serial,
        final(state)@.connections == old(state)@.connections.remove(tab_id@),
        stopped == connection_of(old(state)@, tab_id@),
        stopped is None ==> final(state)@ == old(state)@,
{
    let stopped = state.connections.remove(tab_id);
    proof {
        if stopped is None {
            assert(old(state)@.connections.remove(tab_id@) =~= old(state)@.connections);
        }
    }
    stopped
}

/// Takes the relay `serial` of `tab_id` out of the table once its stream has
/// ended or failed. A relay that was replaced in the meantime leaves the
/// table as it is. Returns the relay that left.
pub fn release_relay<C>(state: &mut SseProxyState<C>, tab_id: &str, serial: u64) -> (released:
    Option<SseConnection<C>>)
    requires
        old(state).wf(),
    ensures
        final(state).wf(),
        final(state)@ == after_relay_end(old(state)@, tab_id@, serial),
        released == if is_active_relay(old(state)@, tab_id@, serial) {
            Some(old(state)@.connections[tab_id@])
        } else {
            None
        },
{
    let own = match state.connections.get(tab_id) {
        Some(c) => c.serial == serial,
        None => false,
    };
    if own {
        state.connections.remove(tab_id)
    } else {
        None
    }
}

/// What a chunk amounts to for the relay `serial` of `tab_id`: the chunk
/// itself while the relay is the active one of its session, and a
/// cancellation once another relay has taken its place or it was stopped.
pub open spec fn admitted_input<C>(
    s: RelayTableView<C>,
    tab_id: Seq<char>,
    serial: u64,
    chunk: Seq<u8>,
) -> RelayInputView {
    if is_active_relay(s, tab_id, serial) {
        RelayInputView::Chunk(chunk)
    } else {
        RelayInputView::Cancel
    }
}

/// Of two relays of one session, at most one publishes events from a chunk,
/// whatever the table holds and wherever the two sessions stand: a session
/// never has two relays that deliver.
pub proof fn lemma_one_relay_delivers<C>(
    s: RelayTableView<C>,
    tab_id: Seq<char>,
    first: u64,
    second: u64,
    first_session: SessionView,
    second_session: SessionView,
    first_chunk: Seq<u8>,
    second_chunk: Seq<u8>,
)
    requires
        first != second,
    ensures
        session_events(first_session, admitted_input(s, tab_id, first, first_chunk))
            == Seq::<EventView>::empty() || session_events(
            second_session,
            admitted_input(s, tab_id, second, second_chunk),
        ) == Seq::<EventView>::empty(),
{
}

/// Hands a chunk that arrived for the relay `serial` of `tab_id` to its
/// session and returns the events to publish. A relay that is no longer the
/// active one of its session is cancelled instead, and publishes nothing.
pub fn relay_chunk<C>(
    state: &SseProxyState<C>,
    session: &mut RelaySession,
    tab_id: &str,
    serial: u64,
    chunk: &[u8],
) -> (events: Vec<SseEvent>)
    requires
        state.wf(),
    ensures
        final(session)@ == session_after(
            old(session)@,
            admitted_input(state@, tab_id@, serial, chunk@),
        ),
        events_view(events@) == session_events(
            old(session)@,
            admitted_input(state@, tab_id@, serial, chunk@),
        ),
{
    let active = match state.active_serial(tab_id) {
        Some(current) => current == serial,
        None => false,
    };
    if active {
        session.step(RelayInput::Chunk(chunk))
    } else {
        session.step(RelayInput::Cancel)
    }
}

} // verus!
