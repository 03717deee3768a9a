//! One handle over any byte transport.
//!
//! A [`Connection`] owns exactly one transport and forwards `send`, `recv`
//! and `close` to it. The transport is anything that implements
//! [`ProtocolConnection`]: a plain socket, a TLS session in either role, a
//! QUIC stream. Nothing is assumed of a transport. Whatever it answers, the
//! connection keeps its own promises: every byte is offered in order until
//! all are taken or a write fails, a peer's orderly close is told apart from
//! an error, and a closed connection never touches its transport again.
//!
//! Closing means something else on each kind of transport. The connection
//! knows its kind, which never changes, and tells the transport what to do:
//! see [`close_action`].
//!
//! What the connection asked of its transport, and what it was answered, is
//! kept in a ghost record, [`Connection::trace`], and the contracts are
//! stated over it.

use vstd::prelude::*;
use vstd::slice::slice_subrange;

verus! {

/// How many bytes one `recv` asks the transport for.
pub const READ_CHUNK: usize = 1024;

/// The application error code with which a QUIC connection is closed.
pub const QUIC_CLOSE_CODE: u32 = 0;

/// The bytes `done`.
pub open spec fn quic_close_reason_spec() -> Seq<u8> {
    seq![0x64u8, 0x6fu8, 0x6eu8, 0x65u8]
}

/// The reason with which a QUIC connection is closed: the bytes `done`.
pub fn quic_close_reason() -> (reason: Vec<u8>)
    ensures
        reason@ == quic_close_reason_spec(),
{
    let mut reason: Vec<u8> = Vec::new();
    reason.push(0x64);
    reason.push(0x6f);
    reason.push(0x6e);
    reason.push(0x65);
    reason
}

/// The bytes `hq-29`.
pub open spec fn quic_alpn_spec() -> Seq<u8> {
    seq![0x68u8, 0x71u8, 0x2du8, 0x32u8, 0x39u8]
}

/// The application protocols that a QUIC transport offers when it connects:
/// the single identifier `hq-29`.
pub fn quic_alpn_protocols() -> (protocols: Vec<Vec<u8>>)
    ensures
        protocols@.len() == 1,
        protocols@[0]@ == quic_alpn_spec(),
{
    let mut id: Vec<u8> = Vec::new();
    id.push(0x68);
    id.push(0x71);
    id.push(0x2d);
    id.push(0x32);
    id.push(0x39);
    let mut protocols: Vec<Vec<u8>> = Vec::new();
    protocols.push(id);
    protocols
}

/// The side that a TLS session plays.
#[derive(Clone, Copy, Debug, PartialEq, Eq, Structural)]
pub enum TlsRole {
    Client,
    Server,
}

/// The kinds of transport.
#[derive(Clone, Copy, Debug, PartialEq, Eq, Structural)]
pub enum TransportKind {
    /// A plain socket.
    Plain,
    /// A TLS session over a socket.
    TlsWrapped(TlsRole),
    /// One bidirectional stream of a QUIC connection.
    QuicStream,
}

/// What a transport is told to do when its connection is closed.
#[derive(Debug, PartialEq, Eq)]
pub enum CloseAction {
    /// Shut both directions of the socket down, in good order.
    ShutdownBoth,
    /// Send the TLS close alert, then shut the socket down.
    CloseNotifyThenShutdown,
    /// Close the whole QUIC connection, with this application error code
    /// and this reason. To finish the stream would be less, and is not asked.
    CloseConnection { code: u32, reason: Vec<u8> },
}

/// The mathematical value of a [`CloseAction`].
pub enum CloseActionView {
    ShutdownBoth,
    CloseNotifyThenShutdown,
    CloseConnection { code: u32, reason: Seq<u8> },
}

impl View for CloseAction {
    type V = CloseActionView;

    open spec fn view(&self) -> CloseActionView {
        match self {
            CloseAction::ShutdownBoth => CloseActionView::ShutdownBoth,
            CloseAction::CloseNotifyThenShutdown => CloseActionView::CloseNotifyThenShutdown,
            CloseAction::CloseConnection { code, reason } => CloseActionView::CloseConnection {
                code: *code,
                reason: reason@,
            },
        }
    }
}

/// What closing means on a transport of kind `kind`. A TLS session closes
/// alike in both roles.
pub open spec fn close_action_spec(kind: TransportKind) -> CloseActionView {
    match kind {
        TransportKind::Plain => CloseActionView::ShutdownBoth,
        TransportKind::TlsWrapped(_) => CloseActionView::CloseNotifyThenShutdown,
        TransportKind::QuicStream => CloseActionView::CloseConnection {
            code: QUIC_CLOSE_CODE,
            reason: quic_close_reason_spec(),
        },
    }
}

/// Says what a transport of kind `kind` is to do to close.
pub fn close_action(kind: TransportKind) -> (action: CloseAction)
    ensures
        action@ == close_action_spec(kind),
{
    match kind {
        TransportKind::Plain => CloseAction::ShutdownBoth,
        TransportKind::TlsWrapped(_) => CloseAction::CloseNotifyThenShutdown,
        TransportKind::QuicStream => CloseAction::CloseConnection {
            code: QUIC_CLOSE_CODE,
            reason: quic_close_reason(),
        },
    }
}

/// Why a call on a connection failed.
#[derive(Clone, Copy, Debug, PartialEq, Eq, Structural)]
pub enum TransportError {
    /// The transport did not take all the bytes.
    WriteFailed,
    /// The transport could not be read.
    ReadFailed,
    /// The connection was used after `close`.
    Closed,
}

/// What a successful `recv` brings.
#[derive(Debug, PartialEq, Eq)]
pub enum Received {
    /// At least one byte from the peer.
    Data(Vec<u8>),
    /// The peer closed the stream in good order. This is not an error.
    EndOfStream,
}

/// The mathematical value of a [`Received`].
pub enum ReceivedView {
    Data(Seq<u8>),
    EndOfStream,
}

impl View for Received {
    type V = ReceivedView;

    open spec fn view(&self) -> ReceivedView {
        match self {
            Received::Data(bytes) => ReceivedView::Data(bytes@),
            Received::EndOfStream => ReceivedView::EndOfStream,
        }
    }
}

/// The raw operations of one byte transport.
///
/// `send` hands over some bytes and says how many the transport took, which
/// may be fewer than offered. `recv` waits for bytes and brings at most
/// `limit` of them; an empty answer means that the peer closed the stream in
/// good order. `close` releases the transport in the way that `action` says.
/// A call returns only when the transport has an answer.
///
/// Which error a transport reports does not matter: a connection reports
/// every failed write as `WriteFailed` and every failed read as `ReadFailed`.
pub trait ProtocolConnection {
    fn send(&mut self, buffer: &[u8]) -> Result<usize, TransportError>;

    fn recv(&mut self, limit: usize) -> Result<Vec<u8>, TransportError>;

    fn close(&mut self, action: CloseAction) -> Result<(), TransportError>;
}

/// One exchange between a connection and its transport.
pub enum IoEvent {
    /// `offered` was handed to the transport's `send`.
    Write { offered: Seq<u8>, taken: Result<usize, TransportError> },
    /// The transport's `recv` was asked for at most `limit` bytes.
    Read { limit: usize, brought: Result<Seq<u8>, TransportError> },
    /// The transport's `close` was called, and told to do `action`.
    Close { action: CloseActionView, outcome: Result<(), TransportError> },
}

/// The bytes of a transport's answer to `recv`.
pub open spec fn read_answer_view(answer: Result<Vec<u8>, TransportError>) -> Result<
    Seq<u8>,
    TransportError,
> {
    match answer {
        Ok(bytes) => Ok(bytes@),
        Err(e) => Err(e),
    }
}

/// The mathematical value of what `recv` returns.
pub open spec fn received_view(res: Result<Received, TransportError>) -> Result<
    ReceivedView,
    TransportError,
> {
    match res {
        Ok(r) => Ok(r@),
        Err(e) => Err(e),
    }
}

/// Where a `send` stands after one answer of the transport.
#[derive(Clone, Copy, Debug, PartialEq, Eq, Structural)]
pub enum WriteStep {
    /// Every byte has been taken.
    Done,
    /// Bytes are left; the next write starts at this offset.
    Continue(usize),
    /// The write failed, took nothing, or claims more than was offered.
    Failed,
}

/// The step that follows when `len - offset` bytes were offered and the
/// transport gave `answer`.
pub open spec fn write_step_spec(
    len: int,
    offset: int,
    answer: Result<usize, TransportError>,
) -> WriteStep {
    if offset >= len {
        WriteStep::Done
    } else {
        match answer {
            Ok(n) => if n == 0 || n > len - offset {
                WriteStep::Failed
            } else if n == len - offset {
                WriteStep::Done
            } else {
                WriteStep::Continue((offset + n) as usize)
            },
            Err(_) => WriteStep::Failed,
        }
    }
}

/// Decides how a `send` of `len` bytes goes on after the transport answered
/// the write that started at `offset`.
pub fn write_step(len: usize, offset: usize, answer: &Result<usize, TransportError>) -> (step:
    WriteStep)
    ensures
        step == write_step_spec(len as int, offset as int, *answer),
{
    if offset >= len {
        return WriteStep::Done;
    }
    let left: usize = len - offset;
    match answer {
        Ok(n) => {
            if *n == 0 || *n > left {
                WriteStep::Failed
            } else if *n == left {
                WriteStep::Done
            } else {
                WriteStep::Continue(offset + *n)
            }
        },
        Err(_) => WriteStep::Failed,
    }
}

/// What `recv` returns for a transport's answer.
pub open spec fn read_outcome_spec(answer: Result<Seq<u8>, TransportError>) -> Result<
    ReceivedView,
    TransportError,
> {
    match answer {
        Ok(bytes) => if bytes.len() == 0 {
            Ok(ReceivedView::EndOfStream)
        } else {
            Ok(ReceivedView::Data(bytes))
        },
        Err(_) => Err(TransportError::ReadFailed),
    }
}

/// Turns a transport's answer to `recv` into the connection's outcome: an
/// empty answer is the end of the stream, bytes are data, and any error is
/// `ReadFailed`.
pub fn read_outcome(answer: Result<Vec<u8>, TransportError>) -> (res: Result<
    Received,
    TransportError,
>)
    ensures
        received_view(res) == read_outcome_spec(read_answer_view(answer)),
{
    match answer {
        Ok(bytes) => {
            if bytes.len() == 0 {
                Ok(Received::EndOfStream)
            } else {
                Ok(Received::Data(bytes))
            }
        },
        Err(_) => Err(TransportError::ReadFailed),
    }
}

/// What `close` returns for a transport's answer.
pub open spec fn close_outcome_spec(answer: Result<(), TransportError>) -> Result<
    (),
    TransportError,
> {
    match answer {
        Ok(_) => Ok(()),
        Err(_) => Err(TransportError::WriteFailed),
    }
}

/// Turns a transport's answer to `close` into the connection's outcome. A
/// shutdown is the last write on a stream, so its failure is `WriteFailed`.
pub fn close_outcome(answer: Result<(), TransportError>) -> (res: Result<(), TransportError>)
    ensures
        res == close_outcome_spec(answer),
{
    match answer {
        Ok(_) => Ok(()),
        Err(_) => Err(TransportError::WriteFailed),
    }
}

/// How far a `send` of `buffer` has come after the exchanges `events`.
///
/// It is `Some(offset)` when every exchange was a write that offered exactly
/// the bytes not yet taken, `buffer.skip(o)` with `o` short of the end, and
/// was answered with a count between one and the number of bytes offered;
/// `offset` is then the sum of those counts. It is `None` in every other case.
pub open spec fn sent_after(buffer: Seq<u8>, events: Seq<IoEvent>) -> Option<int>
    decreases events.len(),
{
    if events.len() == 0 {
        Some(0)
    } else {
        match (sent_after(buffer, events.drop_last()), events.last()) {
            (Some(o), IoEvent::Write { offered, taken: Ok(n) }) => if o < buffer.len() && offered
                == buffer.skip(o) && 0 < n <= buffer.len() - o {
                Some(o + n)
            } else {
                None
            },
            _ => None,
        }
    }
}

/// The exchanges of one `send` of `buffer` that returned `res`.
///
/// On `Ok`, the writes took the whole buffer, in order and without a gap. On
/// an error, which is `WriteFailed`, the writes before the last one did so up
/// to some offset short of the end, and the last one offered the rest and was
/// answered with an error, with zero, or with more than was offered.
pub open spec fn is_send_run(
    buffer: Seq<u8>,
    events: Seq<IoEvent>,
    res: Result<(), TransportError>,
) -> bool {
    match res {
        Ok(_) => sent_after(buffer, events) == Some(buffer.len() as int),
        Err(e) => {
            &&& e == TransportError::WriteFailed
            &&& events.len() > 0
            &&& sent_after(buffer, events.drop_last()) matches Some(o)
            &&& o < buffer.len()
            &&& events.last() matches IoEvent::Write { offered, taken }
            &&& offered == buffer.skip(o)
            &&& write_step_spec(buffer.len() as int, o, taken) == WriteStep::Failed
        },
    }
}

/// The bytes that the transport took in the exchanges `events`, in their
/// order: of each write that was answered with a count within what was
/// offered, that many bytes from the start of what was offered.
pub open spec fn taken_bytes(events: Seq<IoEvent>) -> Seq<u8>
    decreases events.len(),
{
    if events.len() == 0 {
        Seq::empty()
    } else {
        taken_bytes(events.drop_last()) + (match events.last() {
            IoEvent::Write { offered, taken: Ok(n) } => if n <= offered.len() {
                offered.take(n as int)
            } else {
                Seq::empty()
            },
            _ => Seq::empty(),
        })
    }
}

/// As far as a `send` has come, the transport has taken that much of the
/// buffer from its start: no byte twice, none left out, none out of order.
pub proof fn lemma_taken_so_far(buffer: Seq<u8>, events: Seq<IoEvent>)
    requires
        sent_after(buffer, events) is Some,
    ensures
        0 <= sent_after(buffer, events)->0 <= buffer.len(),
        taken_bytes(events) == buffer.take(sent_after(buffer, events)->0),
    decreases events.len(),
{
    if events.len() > 0 {
        let earlier = events.drop_last();
        lemma_taken_so_far(buffer, earlier);
        let o = sent_after(buffer, earlier)->0;
        let n = sent_after(buffer, events)->0 - o;
        assert(buffer.take(o + n) =~= buffer.take(o) + buffer.skip(o).take(n));
    }
}

/// What a `send` delivers: the transport takes a start of the buffer, and it
/// takes the whole buffer exactly when the `send` succeeds.
pub proof fn lemma_send_run_delivers(
    buffer: Seq<u8>,
    events: Seq<IoEvent>,
    res: Result<(), TransportError>,
)
    requires
        is_send_run(buffer, events, res),
    ensures
        taken_bytes(events).is_prefix_of(buffer),
        res is Ok <==> taken_bytes(events) == buffer,
{
    match res {
        Ok(_) => {
            lemma_taken_so_far(buffer, events);
            assert(buffer.take(buffer.len() as int) =~= buffer);
        },
        Err(_) => {
            let earlier = events.drop_last();
            lemma_taken_so_far(buffer, earlier);
            let o = sent_after(buffer, earlier)->0;
            assert(taken_bytes(events) =~= buffer.take(o));
        },
    }
}

/// A connection: one transport behind a uniform contract.
///
/// A connection is open from `new` until `close`, and closed ever after. It
/// keeps the one transport it was made with, and its kind.
pub struct Connection {
    protocol_impl: Box<dyn ProtocolConnection>,
    kind: TransportKind,
    closed: bool,
    trace: Ghost<Seq<IoEvent>>,
}

impl Connection {
    /// The kind of the transport.
    pub closed spec fn spec_kind(&self) -> TransportKind {
        self.kind
    }

    /// True once `close` has been called.
    pub closed spec fn is_closed(&self) -> bool {
        self.closed
    }

    /// Every exchange with the transport so far, oldest first.
    pub closed spec fn trace(&self) -> Seq<IoEvent> {
        self.trace@
    }

    /// The exchanges that were added to the trace since `before`.
    pub open spec fn events_since(&self, before: &Connection) -> Seq<IoEvent> {
        self.trace().skip(before.trace().len() as int)
    }

    /// True when the trace of `before` is the start of this one's.
    pub open spec fn extends(&self, before: &Connection) -> bool {
        before.trace().is_prefix_of(self.trace())
    }

    /// An open connection over the transport `protocol_impl`, which is of
    /// kind `kind`, with nothing exchanged yet.
    pub fn new(kind: TransportKind, protocol_impl: Box<dyn ProtocolConnection>) -> (connection:
        Connection)
        ensures
            connection.spec_kind() == kind,
            !connection.is_closed(),
            connection.trace() == Seq::<IoEvent>::empty(),
    {
        Connection { protocol_impl, kind, closed: false, trace: Ghost(Seq::empty()) }
    }

    /// The kind of the transport.
    pub fn kind(&self) -> (kind: TransportKind)
        ensures
            kind == self.spec_kind(),
    {
        self.kind
    }

    /// Tells whether `close` has been called.
    pub fn closed(&self) -> (closed: bool)
        ensures
            closed == self.is_closed(),
    {
        self.closed
    }

    /// Sends all of `buffer`, or fails.
    ///
    /// On a closed connection this is `Closed` and the transport is not
    /// touched. On an open one the bytes not yet taken are offered to the
    /// transport again and again until none is left: a short write is
    /// followed by a write of the rest, never by an early return. The first
    /// write that fails or takes nothing ends the call with `WriteFailed`.
    /// An empty buffer is sent without any write.
    ///
    /// Either way the transport has taken a start of the buffer, and the
    /// whole of it exactly when the call succeeds.
    pub fn send(&mut self, buffer: &[u8]) -> (res: Result<(), TransportError>)
        ensures
            final(self).spec_kind() == old(self).spec_kind(),
            final(self).is_closed() == old(self).is_closed(),
            final(self).extends(old(self)),
            old(self).is_closed() ==> res == Err::<(), TransportError>(TransportError::Closed)
                && *final(self) == *old(self),
            !old(self).is_closed() ==> is_send_run(
                buffer@,
                final(self).events_since(old(self)),
                res,
            ),
            !old(self).is_closed() ==> taken_bytes(final(self).events_since(old(self))).is_prefix_of(
                buffer@,
            ),
            !old(self).is_closed() ==> (res is Ok <==> taken_bytes(
                final(self).events_since(old(self)),
            ) == buffer@),
    {
        if self.closed {
            return Err(TransportError::Closed);
        }
        let len: usize = buffer.len();
        let mut offset: usize = 0;
        let ghost before = self.trace@;
        while offset < len
            invariant
                len == buffer@.len(),
                offset <= len,
                !self.closed,
                !old(self).closed,
                self.kind == old(self).kind,
                before == old(self).trace@,
                before.is_prefix_of(self.trace@),
                sent_after(buffer@, self.trace@.skip(before.len() as int)) == Some(offset as int),
            decreases len - offset,
        {
            let rest = slice_subrange(buffer, offset, len);
            let answer = self.protocol_impl.send(rest);
            let ghost earlier = self.trace@.skip(before.len() as int);
            let ghost event = IoEvent::Write { offered: rest@, taken: answer };
            self.trace = Ghost(self.trace@.push(event));
            proof {
                let events = self.trace@.skip(before.len() as int);
                assert(events.drop_last() == earlier);
            }
            match write_step(len, offset, &answer) {
                WriteStep::Done => {
                    proof {
                        lemma_send_run_delivers(
                            buffer@,
                            self.trace@.skip(before.len() as int),
                            Ok(()),
                        );
                    }
                    return Ok(());
                },
                WriteStep::Continue(next) => {
                    offset = next;
                },
                WriteStep::Failed => {
                    proof {
                        lemma_send_run_delivers(
                            buffer@,
                            self.trace@.skip(before.len() as int),
                            Err(TransportError::WriteFailed),
                        );
                    }
                    return Err(TransportError::WriteFailed);
                },
            }
        }
        proof {
            lemma_send_run_delivers(buffer@, self.trace@.skip(before.len() as int), Ok(()));
        }
        Ok(())
    }

    /// Waits for bytes from the peer.
    ///
    /// On a closed connection this is `Closed` and the transport is not
    /// touched. On an open one the transport is asked once, for at most
    /// [`READ_CHUNK`] bytes: bytes come back as `Data`, an empty answer as
    /// `EndOfStream`, an error as `ReadFailed`. A caller that needs a whole
    /// message calls `recv` until the framer has enough.
    pub fn recv(&mut self) -> (res: Result<Received, TransportError>)
        ensures
            final(self).spec_kind() == old(self).spec_kind(),
            final(self).is_closed() == old(self).is_closed(),
            final(self).extends(old(self)),
            old(self).is_closed() ==> res == Err::<Received, TransportError>(
                TransportError::Closed,
            ) && *final(self) == *old(self),
            !old(self).is_closed() ==> {
                &&& final(self).events_since(old(self)).len() == 1
                &&& final(self).events_since(old(self))[0] matches IoEvent::Read { limit, brought }
                &&& limit == READ_CHUNK
                &&& received_view(res) == read_outcome_spec(brought)
            },
    {
        if self.closed {
            return Err(TransportError::Closed);
        }
        let answer = self.protocol_impl.recv(READ_CHUNK);
        let ghost event = IoEvent::Read { limit: READ_CHUNK, brought: read_answer_view(answer) };
        self.trace = Ghost(self.trace@.push(event));
        read_outcome(answer)
    }

    /// Closes the connection.
    ///
    /// The first call asks the transport to close, once, in the way that
    /// [`close_action`] gives for its kind, and reports a failure of that as
    /// `WriteFailed`; the connection is closed either way. A call on a
    /// closed connection does nothing and succeeds.
    pub fn close(&mut self) -> (res: Result<(), TransportError>)
        ensures
            final(self).spec_kind() == old(self).spec_kind(),
            final(self).is_closed(),
            final(self).extends(old(self)),
            old(self).is_closed() ==> res == Ok::<(), TransportError>(()) && *final(self) == *old(
                self,
            ),
            !old(self).is_closed() ==> {
                &&& final(self).events_since(old(self)).len() == 1
                &&& final(self).events_since(old(self))[0] matches IoEvent::Close {
                    action,
                    outcome,
                }
                &&& action == close_action_spec(old(self).spec_kind())
                &&& res == close_outcome_spec(outcome)
            },
    {
        if self.closed {
            return Ok(());
        }
        self.closed = true;
        let action = close_action(self.kind);
        let ghost told = action@;
        let answer = self.protocol_impl.close(action);
        let ghost event = IoEvent::Close { action: told, outcome: answer };
        self.trace = Ghost(self.trace@.push(event));
        close_outcome(answer)
    }
}

} // verus!
