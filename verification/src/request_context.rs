//! One client request among the many that share a connection: how much of it is on its way,
//! and whether more of it may be sent.

use crate::exceptions::{opt_exception, opt_exception_clone, CrankerRouterException, ExceptionView};
use crate::proxy_info::{ProxyInfoData, ProxyInfoView};
use crate::router_socket::RouterSocketInfo;
use vstd::prelude::*;

verus! {

/// Above so many bytes on their way to the target no more of the request's body is read.
pub const WATER_MARK_HIGH: i32 = 65536;

/// Below so many bytes on their way to the target the request's body is read again.
pub const WATER_MARK_LOW: i32 = 16384;

/// How far a stream has come.
#[derive(Debug, Clone, Copy, PartialEq, Eq, Structural)]
pub enum StreamState {
    Open,
    HalfClose,
    Closed,
    Error,
}

impl StreamState {
    pub fn is_completed(&self) -> (r: bool)
        ensures
            r == (*self is Closed || *self is Error),
    {
        match self {
            StreamState::Open | StreamState::HalfClose => false,
            StreamState::Closed | StreamState::Error => true,
        }
    }
}

/// One client request.
#[derive(Debug)]
pub struct RequestContext {
    pub request_id: i32,
    pub req_start_time: i64,
    /// Bytes that the connector has acknowledged.
    pub wss_tgt_connector_ack_bytes: i32,
    /// Bytes on their way to the target that the connector has not acknowledged.
    pub wss_rtr_to_tgt_pending_ack_bytes: i32,
    /// Whether more of the body may be read.
    pub is_wss_writable: bool,
    /// Those who wait to read more of the body, by their tickets.
    pub waiting_readers: Vec<u64>,
    /// Frames of the response's body.
    pub wss_on_binary_call_count: i64,
    pub from_client_bytes: i64,
    pub to_client_bytes: i64,
    pub duration_millis: i64,
    pub error: Option<CrankerRouterException>,
    pub is_rst_stream_sent: bool,
    pub state: StreamState,
    /// The header text of the response, as far as it has come.
    pub header_line_builder: String,
    /// Whether the target may answer: not before the request's headers are on their way.
    pub is_tgt_can_send_res_now_according_to_rfc2616: bool,
    /// Whether the response to the client takes more.
    pub is_tgt_res_open: bool,
    /// Whether the request is still being sent.
    pub is_being_sent: bool,
}

/// What a [`RequestContext`] holds.
#[verifier::ext_equal]
pub struct ContextView {
    pub request_id: i32,
    pub start: i64,
    pub acked: i32,
    pub pending: i32,
    pub writable: bool,
    pub readers: Seq<u64>,
    pub frames: i64,
    pub from_client: i64,
    pub to_client: i64,
    pub duration: i64,
    pub error: Option<ExceptionView>,
    pub rst_sent: bool,
    pub state: StreamState,
    pub header_text: Seq<char>,
    pub can_respond: bool,
    pub response_open: bool,
    pub being_sent: bool,
}

impl View for RequestContext {
    type V = ContextView;

    open spec fn view(&self) -> ContextView {
        ContextView {
            request_id: self.request_id,
            start: self.req_start_time,
            acked: self.wss_tgt_connector_ack_bytes,
            pending: self.wss_rtr_to_tgt_pending_ack_bytes,
            writable: self.is_wss_writable,
            readers: self.waiting_readers@,
            frames: self.wss_on_binary_call_count,
            from_client: self.from_client_bytes,
            to_client: self.to_client_bytes,
            duration: self.duration_millis,
            error: opt_exception(self.error),
            rst_sent: self.is_rst_stream_sent,
            state: self.state,
            header_text: self.header_line_builder@,
            can_respond: self.is_tgt_can_send_res_now_according_to_rfc2616,
            response_open: self.is_tgt_res_open,
            being_sent: self.is_being_sent,
        }
    }
}

impl ContextView {
    /// A request that has just come.
    pub open spec fn start(request_id: i32, now: i64) -> ContextView {
        ContextView {
            request_id,
            start: now,
            acked: 0,
            pending: 0,
            writable: true,
            readers: Seq::empty(),
            frames: 0,
            from_client: 0,
            to_client: 0,
            duration: 0,
            error: None,
            rst_sent: false,
            state: StreamState::Open,
            header_text: Seq::empty(),
            can_respond: false,
            response_open: true,
            being_sent: true,
        }
    }

    /// The request with `n` more bytes on their way to the target. With too many on their way
    /// no more may be read.
    pub open spec fn sending(self, n: i32) -> ContextView {
        let pending = self.pending.wrapping_add(n);
        ContextView { pending, writable: self.writable && pending <= WATER_MARK_HIGH, ..self }
    }

    /// Whether an acknowledgement of `n` bytes lets those who wait read on.
    pub open spec fn unblocked_by(self, n: i32) -> bool {
        !self.writable && self.pending.wrapping_sub(n) < WATER_MARK_LOW
    }

    /// The request after the connector acknowledged `n` bytes.
    pub open spec fn acknowledged(self, n: i32) -> ContextView {
        ContextView {
            acked: self.acked.wrapping_add(n),
            pending: self.pending.wrapping_sub(n),
            writable: self.writable || self.unblocked_by(n),
            readers: if self.unblocked_by(n) {
                Seq::empty()
            } else {
                self.readers
            },
            ..self
        }
    }

    /// Those who may read on after the connector acknowledged `n` bytes.
    pub open spec fn released_by(self, n: i32) -> Seq<u64> {
        if self.unblocked_by(n) {
            self.readers
        } else {
            Seq::empty()
        }
    }

    /// Whether nothing of the request has been sent to the target yet.
    pub open spec fn not_started(self) -> bool {
        self.can_respond && self.from_client == 0
    }

    /// What the proxy listeners are told of the request.
    pub open spec fn info(self, socket: RouterSocketInfo) -> ProxyInfoView {
        ProxyInfoView {
            router_socket_id: socket.router_socket_id@,
            route: socket.route@,
            service_address: socket.service_address,
            connector_id: socket.connector_id@,
            duration_millis: self.duration,
            bytes_received: self.from_client,
            bytes_sent: self.to_client,
            response_body_frames: self.frames,
            error: self.error,
            socket_wait_in_millis: 0,
        }
    }

    /// Whether reading and the bytes on their way are in keeping: reading goes on only up to the
    /// high mark, and rests only down to the low mark; nobody waits while reading goes on.
    pub open spec fn flow_in_keeping(self) -> bool {
        &&& self.writable ==> self.pending <= WATER_MARK_HIGH
        &&& !self.writable ==> self.pending >= WATER_MARK_LOW
        &&& self.writable ==> self.readers.len() == 0
    }
}

impl RequestContext {
    pub fn new(request_id: i32, now: i64) -> (r: Self)
        ensures
            r@ == ContextView::start(request_id, now),
    {
        let r = RequestContext {
            request_id,
            req_start_time: now,
            wss_tgt_connector_ack_bytes: 0,
            wss_rtr_to_tgt_pending_ack_bytes: 0,
            is_wss_writable: true,
            waiting_readers: Vec::new(),
            wss_on_binary_call_count: 0,
            from_client_bytes: 0,
            to_client_bytes: 0,
            duration_millis: 0,
            error: None,
            is_rst_stream_sent: false,
            state: StreamState::Open,
            header_line_builder: String::new(),
            is_tgt_can_send_res_now_according_to_rfc2616: false,
            is_tgt_res_open: true,
            is_being_sent: true,
        };
        assert(r@ =~= ContextView::start(request_id, now));
        r
    }

    /// Counts bytes that go to the target.
    pub fn inc_rtr_to_tgt_pending_ack_bytes(&mut self, pending: i32)
        ensures
            final(self)@ == old(self)@.sending(pending),
    {
        self.wss_rtr_to_tgt_pending_ack_bytes =
        self.wss_rtr_to_tgt_pending_ack_bytes.wrapping_add(pending);
        if self.wss_rtr_to_tgt_pending_ack_bytes > WATER_MARK_HIGH {
            self.is_wss_writable = false;
        }
        assert(self@ =~= old(self)@.sending(pending));
    }

    /// Counts bytes that the connector has acknowledged. Those who may read on are returned.
    pub fn target_connector_ack_bytes(&mut self, ack: i32) -> (r: Vec<u64>)
        ensures
            final(self)@ == old(self)@.acknowledged(ack),
            r@ == old(self)@.released_by(ack),
    {
        self.wss_tgt_connector_ack_bytes = self.wss_tgt_connector_ack_bytes.wrapping_add(ack);
        self.wss_rtr_to_tgt_pending_ack_bytes =
        self.wss_rtr_to_tgt_pending_ack_bytes.wrapping_sub(ack);
        let mut released: Vec<u64> = Vec::new();
        if self.wss_rtr_to_tgt_pending_ack_bytes < WATER_MARK_LOW && !self.is_wss_writable {
            self.is_wss_writable = true;
            released = self.write_it_maybe();
        }
        assert(released@ =~= old(self)@.released_by(ack));
        assert(self@ =~= old(self)@.acknowledged(ack));
        released
    }

    /// Lets those who wait read on, if more may be read. They are returned.
    pub fn write_it_maybe(&mut self) -> (r: Vec<u64>)
        ensures
            r@ == (if old(self)@.writable {
                old(self)@.readers
            } else {
                Seq::empty()
            }),
            final(self)@ == (ContextView {
                readers: if old(self)@.writable {
                    Seq::empty()
                } else {
                    old(self)@.readers
                },
                ..old(self)@
            }),
    {
        let mut released: Vec<u64> = Vec::new();
        if self.is_wss_writable {
            std::mem::swap(&mut released, &mut self.waiting_readers);
        }
        assert(self@ =~= (ContextView {
            readers: if old(self)@.writable {
                Seq::empty()
            } else {
                old(self)@.readers
            },
            ..old(self)@
        }));
        released
    }

    pub fn request_id(&self) -> (r: i32)
        ensures
            r == self@.request_id,
    {
        self.request_id
    }

    /// What the proxy listeners are told of the request.
    pub fn info(&self, socket: &RouterSocketInfo) -> (r: ProxyInfoData)
        ensures
            r@ == self@.info(*socket),
    {
        let r = ProxyInfoData {
            router_socket_id: socket.router_socket_id.clone(),
            route: socket.route.clone(),
            service_address: socket.service_address,
            connector_id: socket.connector_id.clone(),
            duration_millis: self.duration_millis,
            bytes_received: self.from_client_bytes,
            bytes_sent: self.to_client_bytes,
            response_body_frames: self.wss_on_binary_call_count,
            error: opt_exception_clone(&self.error),
            socket_wait_in_millis: 0,
        };
        assert(r@ =~= self@.info(*socket));
        r
    }
}

/// Counting bytes that go to the target and bytes that are acknowledged keeps reading and the
/// bytes on their way in keeping, as long as no count overflows and none is negative.
pub proof fn law_flow_control(c: ContextView, n: i32)
    requires
        c.flow_in_keeping(),
        n >= 0,
    ensures
        c.pending + n <= i32::MAX ==> c.sending(n).flow_in_keeping(),
        c.pending - n >= i32::MIN ==> c.acknowledged(n).flow_in_keeping(),
{
}

/// Whoever waits is let go by the acknowledgement that brings the bytes on their way below the
/// low mark, and by none before it.
pub proof fn law_readers_are_released(c: ContextView, n: i32)
    requires
        c.flow_in_keeping(),
        !c.writable,
        n >= 0,
        c.pending - n >= i32::MIN,
    ensures
        c.released_by(n) == (if c.pending - n < WATER_MARK_LOW {
            c.readers
        } else {
            Seq::empty()
        }),
        c.acknowledged(n).writable == (c.pending - n < WATER_MARK_LOW),
{
}

} // verus!
