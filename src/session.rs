//! One conversation with one running language server: lifecycle phase,
//! request ids, pending calls, and the ordered stream of messages handed to
//! the transport.
//!
//! The session decides; whoever owns the process and the byte streams writes
//! what `take_outgoing` returns, feeds back what it reads through `receive`,
//! and reports a process exit or a broken stream through `terminate`.

use crate::codec::{Message, MessageView, Reply, ReplyView};
use crate::text::{decimal, push_decimal};
use vstd::prelude::*;

verus! {

/// Lifecycle of a session.
#[derive(Debug, Clone, Copy, PartialEq, Eq, Structural)]
pub enum Phase {
    Uninitialized,
    Initializing,
    Ready,
    ShuttingDown,
    Terminated,
}

/// Why a request could not be issued.
#[derive(Debug, Clone, Copy, PartialEq, Eq, Structural)]
pub enum CallError {
    /// The session is shutting down or terminated.
    SessionClosed,
    /// Every request id of this session has been used.
    IdsExhausted,
}

/// An outstanding call awaiting its response.
#[derive(Debug, Clone)]
pub struct PendingRequest {
    pub id: u64,
    pub method: String,
    /// Kept so that a call queued during initialization can be written later.
    pub params: String,
}

/// How a call ended.
#[derive(Debug, Clone)]
pub enum CallOutcome {
    /// The server's `result`, as JSON text.
    Success(String),
    /// The server's `error` object, as JSON text, passed through verbatim.
    ServerError(String),
    /// The caller cancelled the call before its response arrived.
    Cancelled,
    /// The session ended before the call was answered.
    SessionClosed,
}

/// The outcome of the call with id `id`.
#[derive(Debug, Clone)]
pub struct Resolution {
    pub id: u64,
    pub outcome: CallOutcome,
}

/// What receiving one message did.
#[derive(Debug, Clone)]
pub enum Received {
    /// Calls that ended, in the order they ended.
    Resolved(Vec<Resolution>),
    /// The initialization handshake succeeded: the session is ready.
    Ready,
    /// A server notification, for the session's observer.
    Notification { method: String, params: String },
    /// A response with no pending call, or a request from the server: dropped.
    Discarded,
}

/// A call outcome with its texts as character sequences.
pub enum OutcomeView {
    Success(Seq<char>),
    ServerError(Seq<char>),
    Cancelled,
    SessionClosed,
}

impl View for CallOutcome {
    type V = OutcomeView;

    open spec fn view(&self) -> OutcomeView {
        match self {
            CallOutcome::Success(s) => OutcomeView::Success(s@),
            CallOutcome::ServerError(s) => OutcomeView::ServerError(s@),
            CallOutcome::Cancelled => OutcomeView::Cancelled,
            CallOutcome::SessionClosed => OutcomeView::SessionClosed,
        }
    }
}

/// The id of the initialization request, the first one a session sends.
pub const INIT_ID: u64 = 0;

/// Name of the handshake request.
pub open spec fn initialize_method() -> Seq<char> {
    "initialize"@
}

/// Name of the notification sent once the handshake succeeded.
pub open spec fn initialized_method() -> Seq<char> {
    "initialized"@
}

/// Name of the notification that cancels a request.
pub open spec fn cancel_method() -> Seq<char> {
    "$/cancelRequest"@
}

/// Name of the request that asks the server to shut down.
pub open spec fn shutdown_method() -> Seq<char> {
    "shutdown"@
}

/// Name of the notification that asks the server to exit.
pub open spec fn exit_method() -> Seq<char> {
    "exit"@
}

/// The parameters of a cancellation notification for request `id`.
pub open spec fn cancel_params(id: u64) -> Seq<char> {
    "{\"id\":"@ + decimal(id as nat) + "}"@
}

pub open spec fn empty_object() -> Seq<char> {
    "{}"@
}

pub open spec fn null_params() -> Seq<char> {
    "null"@
}

/// The ids of the requests in `s`, in order.
pub open spec fn request_ids(s: Seq<MessageView>) -> Seq<u64>
    decreases s.len(),
{
    if s.len() == 0 {
        Seq::empty()
    } else {
        let prev = request_ids(s.drop_last());
        match s.last() {
            MessageView::Request { id, .. } => prev.push(id),
            _ => prev,
        }
    }
}

pub open spec fn increasing(s: Seq<u64>) -> bool {
    forall|i: int, j: int| 0 <= i < j < s.len() ==> s[i] < s[j]
}

pub open spec fn pending_ids(p: Seq<PendingRequest>) -> Seq<u64> {
    p.map_values(|r: PendingRequest| r.id)
}

pub open spec fn request_view(r: PendingRequest) -> MessageView {
    MessageView::Request { id: r.id, method: r.method@, params: r.params@ }
}

/// All pending calls, each resolved as `SessionClosed`, in the same order.
pub open spec fn closed_all(p: Seq<PendingRequest>, r: Seq<Resolution>) -> bool {
    r.len() == p.len() && forall|i: int|
        0 <= i < p.len() ==> r[i].id == p[i].id && r[i].outcome@ == OutcomeView::SessionClosed
}

/// One conversation with one running language server.
pub struct Session {
    pub phase: Phase,
    /// JSON text of the initialization request's parameters.
    pub init_params: String,
    /// The id the next request will get.
    pub next_id: u64,
    /// Outstanding calls, in the order they were issued. While initializing
    /// these are exactly the calls queued for writing.
    pub pending: Vec<PendingRequest>,
    /// Messages decided on but not yet taken by the writer, in order.
    pub outgoing: Vec<Message>,
    /// Every message ever handed to the transport, in order.
    pub written: Ghost<Seq<MessageView>>,
}

impl Session {
    /// The requests written so far, followed by those queued for writing.
    pub open spec fn write_order(&self) -> Seq<u64> {
        request_ids(self.written@) + if self.phase == Phase::Initializing {
            pending_ids(self.pending@)
        } else {
            Seq::empty()
        }
    }

    pub open spec fn outgoing_view(&self) -> Seq<MessageView> {
        self.outgoing@.map_values(|m: Message| m@)
    }

    /// The messages not yet taken by the writer are the last ones written.
    pub open spec fn outgoing_is_tail(&self) -> bool {
        &&& self.outgoing@.len() <= self.written@.len()
        &&& self.written@.subrange(
            self.written@.len() - self.outgoing@.len(),
            self.written@.len() as int,
        ) == self.outgoing_view()
    }

    /// Going from `s` to `t`, what was handed to the transport grew only by
    /// appending, and exactly the new messages were queued for the writer,
    /// after those it had not taken yet.
    pub open spec fn sends_in_order(s: Session, t: Session) -> bool {
        &&& s.written@.len() <= t.written@.len()
        &&& t.written@.subrange(0, s.written@.len() as int) == s.written@
        &&& t.outgoing_view() == s.outgoing_view() + t.written@.subrange(
            s.written@.len() as int,
            t.written@.len() as int,
        )
    }

    pub open spec fn extends(a: Seq<MessageView>, b: Seq<MessageView>) -> bool {
        a.len() <= b.len() && forall|i: int| 0 <= i < a.len() ==> a[i] == b[i]
    }

    proof fn lemma_sends_in_order(s: Session, t: Session)
        requires
            s.outgoing_is_tail(),
            t.outgoing_is_tail(),
            Self::extends(s.written@, t.written@),
            t.written@.len() - t.outgoing@.len() == s.written@.len() - s.outgoing@.len(),
        ensures
            Self::sends_in_order(s, t),
    {
        let sw = s.written@;
        let tw = t.written@;
        assert(tw.subrange(0, sw.len() as int) =~= sw);
        let k = sw.len() - s.outgoing@.len();
        assert(s.outgoing_view() =~= sw.subrange(k, sw.len() as int));
        assert(t.outgoing_view() =~= tw.subrange(k, tw.len() as int));
        assert(tw.subrange(k, tw.len() as int) =~= sw.subrange(k, sw.len() as int) + tw.subrange(
            sw.len() as int,
            tw.len() as int,
        ));
    }

    pub open spec fn wf(&self) -> bool {
        &&& increasing(pending_ids(self.pending@))
        &&& forall|i: int|
            0 <= i < self.pending@.len() ==> INIT_ID < #[trigger] self.pending@[i].id < self.next_id
        &&& increasing(self.write_order())
        &&& forall|i: int| 0 <= i < self.write_order().len() ==> #[trigger] self.write_order()[i] < self.next_id
        &&& self.outgoing_is_tail()
        &&& self.phase == Phase::Uninitialized ==> self.next_id == 0 && self.pending@.len() == 0
            && self.written@.len() == 0
        &&& (self.phase == Phase::Initializing || self.phase == Phase::Ready
            || self.phase == Phase::ShuttingDown) ==> self.next_id > INIT_ID
        &&& self.phase == Phase::Terminated ==> self.pending@.len() == 0
    }

    /// A session that has not started its server yet.
    pub fn new(init_params: String) -> (s: Session)
        ensures
            s.wf(),
            s.phase == Phase::Uninitialized,
            s.init_params == init_params,
            s.pending@.len() == 0,
            s.outgoing@.len() == 0,
    {
        let s = Session {
            phase: Phase::Uninitialized,
            init_params,
            next_id: 0,
            pending: Vec::new(),
            outgoing: Vec::new(),
            written: Ghost(Seq::empty()),
        };
        assert(s.written@.subrange(0, 0) =~= s.outgoing_view());
        assert(request_ids(s.written@) =~= Seq::<u64>::empty());
        assert(s.write_order() =~= Seq::<u64>::empty());
        s
    }

    proof fn lemma_request_ids_push(s: Seq<MessageView>, m: MessageView)
        ensures
            request_ids(s.push(m)) == match m {
                MessageView::Request { id, .. } => request_ids(s).push(id),
                _ => request_ids(s),
            },
    {
        assert(s.push(m).drop_last() =~= s);
    }

    /// Hands `m` to the transport.
    fn write(&mut self, m: Message)
        requires
            old(self).outgoing_is_tail(),
        ensures
            final(self).written@ == old(self).written@.push(m@),
            final(self).outgoing@ == old(self).outgoing@.push(m),
            final(self).outgoing_is_tail(),
            final(self).phase == old(self).phase,
            final(self).pending == old(self).pending,
            final(self).next_id == old(self).next_id,
            final(self).init_params == old(self).init_params,
    {
        let ghost mv = m@;
        let ghost w0 = self.written@;
        let ghost o0 = self.outgoing_view();
        let ghost k = self.outgoing@.len();
        self.outgoing.push(m);
        self.written = Ghost(self.written@.push(mv));
        assert(self.outgoing_view() =~= o0.push(mv));
        assert(self.written@.subrange(w0.len() - k, w0.len() + 1 as int) =~= w0.subrange(
            w0.len() - k,
            w0.len() as int,
        ).push(mv));
        assert(self.written@.subrange(
            self.written@.len() - self.outgoing@.len(),
            self.written@.len() as int,
        ) =~= self.outgoing_view());
    }

    /// Whether requests issued in `phase` are accepted.
    pub open spec fn accepts_requests(phase: Phase) -> bool {
        phase == Phase::Uninitialized || phase == Phase::Initializing || phase == Phase::Ready
    }

    /// The initialization request this session sends first.
    pub open spec fn init_request(&self) -> MessageView {
        MessageView::Request { id: INIT_ID, method: initialize_method(), params: self.init_params@ }
    }

    /// The state `t` and result `r` of issuing a call of `method` with
    /// `params` on `s`.
    pub open spec fn issue_post(
        s: Session,
        t: Session,
        method: Seq<char>,
        params: Seq<char>,
        r: Result<u64, CallError>,
    ) -> bool {
        &&& t.init_params == s.init_params
        &&& Self::sends_in_order(s, t)
        &&& !Self::accepts_requests(s.phase) ==> r == Err::<u64, CallError>(CallError::SessionClosed)
            && t == s
        &&& Self::accepts_requests(s.phase) && s.next_id == u64::MAX ==> r == Err::<u64, CallError>(
            CallError::IdsExhausted,
        ) && t == s
        &&& Self::accepts_requests(s.phase) && s.next_id < u64::MAX ==> r is Ok
        &&& r matches Ok(id) ==> {
            &&& id == if s.phase == Phase::Uninitialized { 1u64 } else { s.next_id }
            &&& t.next_id == id + 1
            &&& t.pending@.len() == s.pending@.len() + 1
            &&& t.pending@.drop_last() == s.pending@
            &&& t.pending@.last().id == id
            &&& t.pending@.last().method@ == method
            &&& t.pending@.last().params@ == params
            &&& t.phase == if s.phase == Phase::Uninitialized { Phase::Initializing } else { s.phase }
            &&& t.written@ == match s.phase {
                Phase::Uninitialized => seq![s.init_request()],
                Phase::Ready => s.written@.push(MessageView::Request { id, method, params }),
                _ => s.written@,
            }
        }
    }

    /// Issues a call of `method` with `params` (JSON text) and returns its id.
    ///
    /// The first call starts the handshake: the initialization request is
    /// written and the call waits in the queue. Calls issued while initializing
    /// are queued; once ready they are written at once. Calls issued once the
    /// session is shutting down or terminated fail with `SessionClosed`.
    pub fn issue(&mut self, method: String, params: String) -> (r: Result<u64, CallError>)
        requires
            old(self).wf(),
        ensures
            final(self).wf(),
            Self::issue_post(*old(self), *final(self), method@, params@, r),
    {
        if self.phase == Phase::ShuttingDown || self.phase == Phase::Terminated {
            proof { Self::lemma_sends_in_order(*old(self), *self); }
            return Err(CallError::SessionClosed);
        }
        if self.next_id == u64::MAX {
            proof { Self::lemma_sends_in_order(*old(self), *self); }
            return Err(CallError::IdsExhausted);
        }
        let ghost w0 = self.written@;
        let ghost pend0 = self.pending@;
        let ghost order0 = self.write_order();
        if self.phase == Phase::Uninitialized {
            let init = Message::Request {
                id: INIT_ID,
                method: String::from_str("initialize"),
                params: self.init_params.clone(),
            };
            self.write(init);
            proof {
                Self::lemma_request_ids_push(w0, self.written@.last());
                assert(w0 =~= Seq::<MessageView>::empty());
                assert(self.written@ =~= seq![old(self).init_request()]);
            }
            self.next_id = INIT_ID + 1;
            self.phase = Phase::Initializing;
        }
        let ghost w1 = self.written@;
        let ghost order1 = self.write_order();
        let id = self.next_id;
        if self.phase == Phase::Ready {
            let m = Message::Request { id, method: method.clone(), params: params.clone() };
            self.write(m);
            proof {
                Self::lemma_request_ids_push(w1, self.written@.last());
            }
        }
        self.pending.push(PendingRequest { id, method, params });
        self.next_id = id + 1;
        proof {
            let pend1 = self.pending@;
            assert(pending_ids(pend1) =~= pending_ids(pend1.drop_last()).push(id));
            assert(pend1.drop_last() =~= old(self).pending@ || old(self).phase == Phase::Uninitialized);
            assert(self.write_order() =~= order1.push(id));
            assert(pend1.drop_last() =~= old(self).pending@);
            Self::lemma_sends_in_order(*old(self), *self);
        }
        Ok(id)
    }

    /// Whether a call with id `id` is outstanding.
    pub open spec fn is_pending(&self, id: u64) -> bool {
        exists|k: int| 0 <= k < self.pending@.len() && self.pending@[k].id == id
    }

    /// The index of the pending call with id `id`.
    pub open spec fn index_of(&self, id: u64) -> int {
        choose|k: int| 0 <= k < self.pending@.len() && self.pending@[k].id == id
    }

    /// Whether a response with id `id` belongs to no call this session can
    /// resolve now: it is not the handshake's answer, and no call awaiting
    /// the server has that id.
    pub open spec fn answers_nothing(&self, id: u64) -> bool {
        &&& !(self.phase == Phase::Initializing && id == INIT_ID)
        &&& (self.phase == Phase::Ready || self.phase == Phase::ShuttingDown) ==> !self.is_pending(id)
    }

    /// The index of the pending call with id `id`.
    fn position(&self, id: u64) -> (r: Option<usize>)
        requires
            self.wf(),
        ensures
            r matches Some(k) ==> k < self.pending@.len() && self.pending@[k as int].id == id,
            r is None ==> !self.is_pending(id),
    {
        let mut i: usize = 0;
        while i < self.pending.len()
            invariant
                i <= self.pending@.len(),
                forall|j: int| 0 <= j < i ==> self.pending@[j].id != id,
            decreases self.pending@.len() - i,
        {
            if self.pending[i].id == id {
                return Some(i);
            }
            i = i + 1;
        }
        None
    }

    proof fn lemma_pending_ids_remove(p: Seq<PendingRequest>, k: int)
        requires
            0 <= k < p.len(),
        ensures
            pending_ids(p.remove(k)) == pending_ids(p).remove(k),
    {
        assert(pending_ids(p.remove(k)) =~= pending_ids(p).remove(k));
    }

    /// The state `t` and resolutions `r` of terminating `s`.
    pub open spec fn terminate_post(s: Session, t: Session, r: Seq<Resolution>) -> bool {
        &&& t.phase == Phase::Terminated
        &&& t.pending@.len() == 0
        &&& closed_all(s.pending@, r)
        &&& Self::sends_in_order(s, t)
        &&& t.written == s.written
        &&& t.outgoing == s.outgoing
        &&& t.next_id == s.next_id
        &&& t.init_params == s.init_params
    }

    /// Ends the session: every pending call resolves as `SessionClosed`, in
    /// the order the calls were issued, and none is left. Used when the
    /// process exited or the stream broke.
    pub fn terminate(&mut self) -> (r: Vec<Resolution>)
        requires
            old(self).wf(),
        ensures
            final(self).wf(),
            Self::terminate_post(*old(self), *final(self), r@),
    {
        let ghost order0 = self.write_order();
        let mut r: Vec<Resolution> = Vec::new();
        let mut i: usize = 0;
        while i < self.pending.len()
            invariant
                i <= self.pending@.len(),
                r@.len() == i,
                forall|j: int|
                    0 <= j < i ==> r@[j].id == self.pending@[j].id && r@[j].outcome@
                        == OutcomeView::SessionClosed,
            decreases self.pending@.len() - i,
        {
            r.push(Resolution { id: self.pending[i].id, outcome: CallOutcome::SessionClosed });
            i = i + 1;
        }
        self.pending.clear();
        self.phase = Phase::Terminated;
        proof {
            let rw = request_ids(self.written@);
            assert(rw =~= order0.subrange(0, rw.len() as int));
            assert(self.write_order() =~= rw);
            Self::lemma_sends_in_order(*old(self), *self);
        }
        r
    }

    /// The state `t` and result `r` of receiving `m` on `s`.
    pub open spec fn receive_post(s: Session, t: Session, m: Message, r: Received) -> bool {
        &&& t.init_params == s.init_params
        &&& Self::sends_in_order(s, t)
        &&& t.next_id == s.next_id
        &&& m is Request ==> r is Discarded && t == s
        &&& m matches Message::Notification { method, params } ==> t == s
            && r == (Received::Notification { method, params })
        &&& m matches Message::Response { id, reply } ==> {
                    &&& s.answers_nothing(id) ==> r is Discarded && t == s
                    &&& s.phase == Phase::Initializing && id == INIT_ID && reply is Result
                        ==> {
                        &&& r is Ready
                        &&& t.phase == Phase::Ready
                        &&& t.pending == s.pending
                        &&& t.written@ == s.written@.push(
                            MessageView::Notification { method: initialized_method(), params: empty_object() },
                        ) + s.pending@.map_values(|q: PendingRequest| request_view(q))
                    }
                    &&& s.phase == Phase::Initializing && id == INIT_ID && reply is Error
                        ==> {
                        &&& t.phase == Phase::Terminated
                        &&& t.pending@.len() == 0
                        &&& r matches Received::Resolved(v) && closed_all(s.pending@, v@)
                    }
                    &&& (s.phase == Phase::Ready || s.phase == Phase::ShuttingDown)
                        ==> forall|k: int|
                        0 <= k < s.pending@.len() && s.pending@[k].id == id ==> {
                            &&& t.pending@ == s.pending@.remove(k)
                            &&& t.phase == s.phase
                            &&& t.written == s.written
                            &&& r matches Received::Resolved(v) && v@ == seq![Resolution { id, outcome: match reply {
                                Reply::Result(x) => CallOutcome::Success(x),
                                Reply::Error(x) => CallOutcome::ServerError(x),
                            } }]
                        }
                }
    }

    /// What receiving `m` from the server does.
    ///
    /// A success answer to the handshake makes the session ready: the
    /// `initialized` notification is written, then every queued call in the
    /// order it was issued. A failed handshake ends the session as
    /// `terminate` does. An answer to a pending call resolves that call with
    /// the server's result or error and removes it; any other response, and
    /// any request from the server, is dropped and changes nothing.
    pub fn receive(&mut self, m: Message) -> (r: Received)
        requires
            old(self).wf(),
        ensures
            final(self).wf(),
            Self::receive_post(*old(self), *final(self), m, r),
    {
        let r = match m {
            Message::Request { .. } => Received::Discarded,
            Message::Notification { method, params } => Received::Notification { method, params },
            Message::Response { id, reply } => {
                if self.phase == Phase::Initializing && id == INIT_ID {
                    match reply {
                        Reply::Result(_) => {
                            self.flush_queue();
                            Received::Ready
                        },
                        Reply::Error(_) => Received::Resolved(self.terminate()),
                    }
                } else if self.phase == Phase::Ready || self.phase == Phase::ShuttingDown {
                    match self.position(id) {
                        None => Received::Discarded,
                        Some(k) => {
                            let ghost order0 = self.write_order();
                            let ghost pend0 = self.pending@;
                            self.pending.remove(k);
                            proof {
                                Self::lemma_pending_ids_remove(pend0, k as int);
                                assert(self.write_order() =~= order0);
                                assert forall|a: int, b: int| 0 <= a < b < pend0.len() && pend0[a].id == id && pend0[b].id == id
                                    implies false by {
                                    assert(pending_ids(pend0)[a] < pending_ids(pend0)[b]);
                                }
                            }
                            let outcome = match reply {
                                Reply::Result(t) => CallOutcome::Success(t),
                                Reply::Error(t) => CallOutcome::ServerError(t),
                            };
                            let mut v: Vec<Resolution> = Vec::new();
                            v.push(Resolution { id, outcome });
                            Received::Resolved(v)
                        },
                    }
                } else {
                    Received::Discarded
                }
            },
        };
        proof { Self::lemma_sends_in_order(*old(self), *self); }
        r
    }

    /// Completes the handshake: writes `initialized`, then every queued call.
    fn flush_queue(&mut self)
        requires
            old(self).wf(),
            old(self).phase == Phase::Initializing,
        ensures
            final(self).wf(),
            final(self).phase == Phase::Ready,
            final(self).pending == old(self).pending,
            final(self).next_id == old(self).next_id,
            final(self).init_params == old(self).init_params,
            Self::sends_in_order(*old(self), *final(self)),
            Self::extends(old(self).written@, final(self).written@),
            final(self).written@.len() - final(self).outgoing@.len() == old(self).written@.len()
                - old(self).outgoing@.len(),
            final(self).written@ == old(self).written@.push(
                MessageView::Notification { method: initialized_method(), params: empty_object() },
            ) + old(self).pending@.map_values(|q: PendingRequest| request_view(q)),
    {
        let ghost order0 = self.write_order();
        let ghost w0 = self.written@;
        let note = Message::Notification {
            method: String::from_str("initialized"),
            params: String::from_str("{}"),
        };
        self.write(note);
        proof {
            Self::lemma_request_ids_push(w0, self.written@.last());
        }
        let ghost w1 = self.written@;
        let n = self.pending.len();
        let mut i: usize = 0;
        while i < n
            invariant
                n == self.pending@.len(),
                i <= n,
                self.pending == old(self).pending,
                self.phase == Phase::Initializing,
                self.next_id == old(self).next_id,
                self.init_params == old(self).init_params,
                self.outgoing_is_tail(),
                Self::extends(old(self).written@, self.written@),
                self.written@.len() - self.outgoing@.len() == old(self).written@.len() - old(self).outgoing@.len(),
                self.written@ == w1 + self.pending@.subrange(0, i as int).map_values(
                    |q: PendingRequest| request_view(q),
                ),
                request_ids(self.written@) + pending_ids(self.pending@.subrange(i as int, n as int))
                    == order0,
            decreases n - i,
        {
            let ghost wp = self.written@;
            let q = Message::Request {
                id: self.pending[i].id,
                method: self.pending[i].method.clone(),
                params: self.pending[i].params.clone(),
            };
            self.write(q);
            proof {
                let p = self.pending@;
                Self::lemma_request_ids_push(wp, self.written@.last());
                assert(pending_ids(p.subrange(i as int, n as int)) =~= seq![p[i as int].id]
                    + pending_ids(p.subrange(i + 1, n as int)));
                assert(request_ids(self.written@) + pending_ids(p.subrange(i + 1, n as int))
                    =~= request_ids(wp) + pending_ids(p.subrange(i as int, n as int)));
                assert(p.subrange(0, i + 1).map_values(|q: PendingRequest| request_view(q))
                    =~= p.subrange(0, i as int).map_values(|q: PendingRequest| request_view(q)).push(
                    request_view(p[i as int]),
                ));
                assert(self.written@ =~= w1 + p.subrange(0, i + 1).map_values(
                    |q: PendingRequest| request_view(q),
                ));
            }
            i = i + 1;
        }
        self.phase = Phase::Ready;
        proof {
            let p = self.pending@;
            assert(p.subrange(n as int, n as int) =~= Seq::<PendingRequest>::empty());
            assert(pending_ids(p.subrange(n as int, n as int)) =~= Seq::<u64>::empty());
            assert(request_ids(self.written@) =~= order0);
            assert(self.write_order() =~= order0);
            assert(p.subrange(0, n as int) =~= p);
            Self::lemma_sends_in_order(*old(self), *self);
        }
    }

    /// Cancels the pending call `id`: it resolves as `Cancelled` at once and
    /// is removed. If it was already written, a cancellation notification
    /// naming it is written; a call still queued is simply dropped. An id
    /// with no pending call changes nothing.
    pub fn cancel(&mut self, id: u64) -> (r: Option<Resolution>)
        requires
            old(self).wf(),
        ensures
            final(self).wf(),
            Self::cancel_outcome(*old(self), *final(self), id, r),
    {
        let r = match self.position(id) {
            None => None,
            Some(k) => {
                let ghost order0 = self.write_order();
                let ghost pend0 = self.pending@;
                let ghost w0 = self.written@;
                self.pending.remove(k);
                proof {
                    Self::lemma_pending_ids_remove(pend0, k as int);
                    let rw = request_ids(w0);
                    if self.phase == Phase::Initializing {
                        assert(self.write_order() =~= order0.remove(rw.len() + k));
                    } else {
                        assert(self.write_order() =~= order0);
                    }
                    assert forall|a: int, b: int| 0 <= a < b < pend0.len() && pend0[a].id == id && pend0[b].id == id
                        implies false by {
                        assert(pending_ids(pend0)[a] < pending_ids(pend0)[b]);
                    }
                    let k2 = old(self).index_of(id);
                    assert(0 <= k2 < pend0.len() && pend0[k2].id == id);
                    if k2 != k {
                        if k2 < k {
                            assert(pending_ids(pend0)[k2] < pending_ids(pend0)[k as int]);
                        } else {
                            assert(pending_ids(pend0)[k as int] < pending_ids(pend0)[k2]);
                        }
                    }
                    assert forall|j: int| 0 <= j < self.pending@.len() implies self.pending@[j].id != id by {
                        if j < k {
                            assert(pending_ids(pend0)[j] < pending_ids(pend0)[k as int]);
                        } else {
                            assert(pending_ids(pend0)[k as int] < pending_ids(pend0)[j + 1]);
                        }
                    }
                }
                if self.phase != Phase::Initializing {
                    let mut params = String::from_str("{\"id\":");
                    push_decimal(&mut params, id);
                    params.append("}");
                    let note = Message::Notification {
                        method: String::from_str("$/cancelRequest"),
                        params,
                    };
                    let ghost w1 = self.written@;
                    self.write(note);
                    proof {
                        Self::lemma_request_ids_push(w1, self.written@.last());
                    }
                }
                Some(Resolution { id, outcome: CallOutcome::Cancelled })
            },
        };
        proof { Self::lemma_sends_in_order(*old(self), *self); }
        r
    }

    /// The state `t` and result `r` of cancelling call `id` on `s`.
    pub open spec fn cancel_outcome(s: Session, t: Session, id: u64, r: Option<Resolution>) -> bool {
        &&& t.init_params == s.init_params
        &&& Self::sends_in_order(s, t)
        &&& !s.is_pending(id) ==> r is None && t == s
        &&& s.is_pending(id) ==> (r matches Some(res) && res.id == id && res.outcome@
            == OutcomeView::Cancelled)
        &&& s.is_pending(id) ==> Self::cancel_post(s, t, s.index_of(id))
    }

    /// The state after cancelling the call at index `k` of `s`'s pending calls.
    pub open spec fn cancel_post(s: Session, t: Session, k: int) -> bool {
        &&& t.pending@ == s.pending@.remove(k)
        &&& t.phase == s.phase
        &&& t.next_id == s.next_id
        &&& t.init_params == s.init_params
        &&& t.written@ == if s.phase == Phase::Initializing {
            s.written@
        } else {
            s.written@.push(
                MessageView::Notification { method: cancel_method(), params: cancel_params(s.pending@[k].id) },
            )
        }
        &&& !t.is_pending(s.pending@[k].id)
    }

    /// The state `t` and resolutions `r` of closing `s`.
    pub open spec fn close_post(s: Session, t: Session, r: Seq<Resolution>) -> bool {
        &&& (t.init_params == s.init_params)
        &&& (s.phase == Phase::Uninitialized ==> t.phase == Phase::Terminated
                && r.len() == 0)
        &&& (s.phase == Phase::Initializing ==> t.pending@.len() == 0
                && closed_all(s.pending@, r))
        &&& (s.phase == Phase::Ready ==> t.pending == s.pending
                && r.len() == 0)
        &&& ((s.phase == Phase::Initializing || s.phase == Phase::Ready) ==> {
                &&& t.phase == Phase::ShuttingDown
                &&& s.next_id < u64::MAX ==> {
                    &&& t.next_id == s.next_id + 1
                    &&& t.written@ == s.written@.push(
                        MessageView::Request {
                            id: s.next_id,
                            method: shutdown_method(),
                            params: null_params(),
                        },
                    ).push(MessageView::Notification { method: exit_method(), params: null_params() })
                }
                &&& s.next_id == u64::MAX ==> {
                    &&& t.next_id == s.next_id
                    &&& t.written@ == s.written@.push(
                        MessageView::Notification { method: exit_method(), params: null_params() },
                    )
                }
            })
        &&& ((s.phase == Phase::ShuttingDown || s.phase == Phase::Terminated)
                ==> t == s && r.len() == 0)
        &&& Self::sends_in_order(s, t)
    }

    /// Closes the session at the caller's request.
    ///
    /// Before the server was started it simply ends. While initializing, the
    /// queued calls (never written) resolve as `SessionClosed`. Once started,
    /// the shutdown handshake is written (a `shutdown` request, while ids
    /// remain, then the `exit` notification) and the session waits, shutting
    /// down, for the process to end; calls already written may still be
    /// answered. A session already closing or ended is left as it is.
    pub fn close(&mut self) -> (r: Vec<Resolution>)
        requires
            old(self).wf(),
        ensures
            final(self).wf(),
            Self::close_post(*old(self), *final(self), r@),
    {
        if self.phase == Phase::Uninitialized {
            self.phase = Phase::Terminated;
            proof { Self::lemma_sends_in_order(*old(self), *self); }
            return Vec::new();
        }
        if self.phase == Phase::ShuttingDown || self.phase == Phase::Terminated {
            proof { Self::lemma_sends_in_order(*old(self), *self); }
            return Vec::new();
        }
        let mut r: Vec<Resolution> = Vec::new();
        if self.phase == Phase::Initializing {
            r = self.terminate();
        }
        let ghost w0 = self.written@;
        let ghost order0 = request_ids(w0);
        if self.next_id < u64::MAX {
            let id = self.next_id;
            let req = Message::Request {
                id,
                method: String::from_str("shutdown"),
                params: String::from_str("null"),
            };
            self.write(req);
            self.next_id = id + 1;
            proof {
                Self::lemma_request_ids_push(w0, self.written@.last());
            }
        }
        let ghost w1 = self.written@;
        let ghost order1 = request_ids(w1);
        let note = Message::Notification {
            method: String::from_str("exit"),
            params: String::from_str("null"),
        };
        self.write(note);
        self.phase = Phase::ShuttingDown;
        proof {
            Self::lemma_request_ids_push(w1, self.written@.last());
            assert(self.write_order() =~= order1);
            Self::lemma_sends_in_order(*old(self), *self);
        }
        r
    }

    /// The messages to write next, in order; the session forgets them.
    pub fn take_outgoing(&mut self) -> (out: Vec<Message>)
        requires
            old(self).wf(),
        ensures
            final(self).wf(),
            out@ == old(self).outgoing@,
            final(self).outgoing@.len() == 0,
            final(self).phase == old(self).phase,
            final(self).pending == old(self).pending,
            final(self).next_id == old(self).next_id,
            final(self).written == old(self).written,
            final(self).init_params == old(self).init_params,
    {
        let mut out: Vec<Message> = Vec::new();
        std::mem::swap(&mut out, &mut self.outgoing);
        assert(self.written@.subrange(self.written@.len() as int, self.written@.len() as int)
            =~= self.outgoing_view());
        out
    }
}

/// Requests reach the transport in the order they were issued: `issue` gives
/// each call the next id; every operation queues for the writer exactly the
/// messages it appends to `written` (`sends_in_order`), which `take_outgoing`
/// hands out in order; and in every well-formed session the ids of the
/// requests in `written` strictly increase, as do those written followed by
/// those still waiting for the handshake.
pub proof fn lemma_write_order(s: Session)
    requires
        s.wf(),
    ensures
        increasing(request_ids(s.written@)),
        increasing(s.write_order()),
{
    let rw = request_ids(s.written@);
    assert(rw =~= s.write_order().subrange(0, rw.len() as int));
}

/// A cancelled call never receives a stale result: `cancel` resolves it as
/// `Cancelled` and removes it, after which a response carrying its id
/// answers nothing, so `receive` drops it and changes nothing.
pub proof fn lemma_cancelled_response_dropped(s: Session, t: Session, id: u64, r: Option<Resolution>)
    requires
        s.wf(),
        s.is_pending(id),
        Session::cancel_outcome(s, t, id, r),
    ensures
        r matches Some(res) && res.id == id && res.outcome@ == OutcomeView::Cancelled,
        t.answers_nothing(id),
{
    let k = s.index_of(id);
    assert(0 <= k < s.pending@.len() && s.pending@[k].id == id);
}

/// A response that answers no pending call is dropped without touching any
/// pending call: the session after receiving it is the session before.
pub proof fn lemma_unknown_response_harmless(s: Session, t: Session, id: u64, reply: Reply, r: Received)
    requires
        s.wf(),
        s.answers_nothing(id),
        Session::receive_post(s, t, Message::Response { id, reply }, r),
    ensures
        r is Discarded,
        t == s,
{
}

} // verus!
