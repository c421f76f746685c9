//! What the router knows of a connector's connection, and how messages go over it.

use crate::config::{CRANKER_V_1_0, CRANKER_V_3_0};
use crate::exceptions::{CrankerRouterException, CrexKind, ExceptionView};
use crate::ids::new_uuid;
use crate::net::{RequestUri, SocketAddr};
use crate::octets::{freeze, octets_new, put_slice, remaining};
use crate::route_identify::RouteIdentify;
use crate::{octets, text};
use bytes::Bytes;
use vstd::prelude::*;
use vstd::utf8::{encode_utf8, is_char_boundary};

verus! {

pub const HEADER_MAX_SIZE: usize = 65536;

/// For V3 multiplexed request contexts
#[derive(Debug, Clone, Copy)]
pub struct ClientRequestIdentifier {
    pub request_id: i32,
}

/// A connector's connection, as the farm picks it for a client's request.
#[derive(Debug)]
pub struct RouterSocketInfo {
    pub router_socket_id: String,
    pub route: String,
    pub component_name: String,
    pub connector_id: String,
    pub domain: String,
    pub service_address: SocketAddr,
    pub cranker_version: &'static str,
}

impl Clone for RouterSocketInfo {
    fn clone(&self) -> (r: Self)
        ensures
            r == *self,
    {
        RouterSocketInfo {
            router_socket_id: self.router_socket_id.clone(),
            route: self.route.clone(),
            component_name: self.component_name.clone(),
            connector_id: self.connector_id.clone(),
            domain: self.domain.clone(),
            service_address: self.service_address,
            cranker_version: self.cranker_version,
        }
    }
}

impl RouteIdentify for RouterSocketInfo {
    fn router_socket_id(&self) -> (r: String)
        ensures
            r@ == self.router_socket_id@,
    {
        self.router_socket_id.clone()
    }

    fn route(&self) -> (r: String)
        ensures
            r@ == self.route@,
    {
        self.route.clone()
    }

    fn service_address(&self) -> (r: SocketAddr)
        ensures
            r == self.service_address,
    {
        self.service_address
    }

    fn domain(&self) -> (r: String)
        ensures
            r@ == self.domain@,
    {
        self.domain.clone()
    }
}

/// The error of a request for a socket that was removed.
pub open spec fn removed_socket_error(socket: RouterSocketInfo) -> ExceptionView {
    ExceptionView::of(
        "try to handle cli req in a is_removed router socket. router_socket_id="@
            + socket.router_socket_id@,
    )
}

/// The error of an error that is not taken any more.
pub fn err_chan_closed() -> (r: CrankerRouterException)
    ensures
        r@ == ExceptionView::of("rare ex that failed to send error to err chan: SendError(..)"@),
{
    CrankerRouterException::new(
        "rare ex that failed to send error to err chan: SendError(..)".to_string(),
    )
}

/// The error of a response that ends before its header text.
pub open spec fn missing_header(socket: RouterSocketInfo) -> ExceptionView {
    ExceptionView::of(
        if socket.cranker_version@ == CRANKER_V_3_0@ {
            "failed to receive header from ctx: RecvError"@
        } else {
            "rare ex seems nothing received from tgt res hdr chan and it closed: RecvError. router_socket_id="@
                + socket.router_socket_id@
        },
    )
}

/// The error of a response that ends before its header text.
pub fn header_missing(socket: &RouterSocketInfo) -> (r: CrankerRouterException)
    ensures
        r@ == missing_header(*socket),
{
    CrankerRouterException::new(
        if text::str_eq(socket.cranker_version, CRANKER_V_3_0) {
            "failed to receive header from ctx: RecvError".to_string()
        } else {
            text::concat(
                "rare ex seems nothing received from tgt res hdr chan and it closed: RecvError. router_socket_id=",
                socket.router_socket_id.as_str(),
            )
        },
    )
}

/// The last message on a connection.
#[derive(Debug)]
pub struct CloseFrame {
    pub code: u16,
    pub reason: String,
}

/// A message on a connection.
#[derive(Debug)]
pub enum WsMessage {
    Text(String),
    Binary(Bytes),
    Ping(Bytes),
    Pong(Bytes),
    Close(Option<CloseFrame>),
}

/// What a message says.
#[verifier::ext_equal]
pub enum MessageView {
    Text(Seq<char>),
    Binary(Seq<u8>),
    Ping(Seq<u8>),
    Pong(Seq<u8>),
    Close(Option<(u16, Seq<char>)>),
}

impl View for CloseFrame {
    type V = (u16, Seq<char>);

    open spec fn view(&self) -> (u16, Seq<char>) {
        (self.code, self.reason@)
    }
}

/// What an optional last message says.
pub open spec fn opt_close(f: Option<CloseFrame>) -> Option<(u16, Seq<char>)> {
    match f {
        Some(f) => Some(f@),
        None => None,
    }
}

impl View for WsMessage {
    type V = MessageView;

    open spec fn view(&self) -> MessageView {
        match self {
            WsMessage::Text(s) => MessageView::Text(s@),
            WsMessage::Binary(b) => MessageView::Binary(octets::octets(*b)),
            WsMessage::Ping(b) => MessageView::Ping(octets::octets(*b)),
            WsMessage::Pong(b) => MessageView::Pong(octets::octets(*b)),
            WsMessage::Close(f) => MessageView::Close(opt_close(*f)),
        }
    }
}

impl WsMessage {
    /// A short name for the kind of message.
    pub fn identifier(&self) -> (r: &'static str)
        ensures
            r@ == match *self {
                WsMessage::Text(_) => "txt"@,
                WsMessage::Binary(_) => "bin"@,
                WsMessage::Ping(_) => "ping"@,
                WsMessage::Pong(_) => "pong"@,
                WsMessage::Close(_) => "close"@,
            },
    {
        match self {
            WsMessage::Text(_) => "txt",
            WsMessage::Binary(_) => "bin",
            WsMessage::Ping(_) => "ping",
            WsMessage::Pong(_) => "pong",
            WsMessage::Close(_) => "close",
        }
    }

    /// What is said of a message that could not be sent.
    pub open spec fn send_error(self) -> Seq<char> {
        match self {
            WsMessage::Text(_) => "err sending txt to uwss"@,
            WsMessage::Binary(_) => "err sending bin to uwss"@,
            WsMessage::Ping(_) => "err sending ping to uwss"@,
            WsMessage::Pong(_) => "err sending pong to uwss"@,
            WsMessage::Close(_) => "err sending close to uwss"@,
        }
    }

    /// What is said of a message that could not be sent.
    pub fn err_msg_for_uwss(&self) -> (r: &'static str)
        ensures
            r@ == self.send_error(),
    {
        match self {
            WsMessage::Text(_) => "err sending txt to uwss",
            WsMessage::Binary(_) => "err sending bin to uwss",
            WsMessage::Ping(_) => "err sending ping to uwss",
            WsMessage::Pong(_) => "err sending pong to uwss",
            WsMessage::Close(_) => "err sending close to uwss",
        }
    }
}

/// The request line: the method, the path with its query, and the version.
pub open spec fn request_line(method: Seq<char>, path_and_query: Option<Seq<char>>) -> Seq<char> {
    method + " "@ + match path_and_query {
        Some(p) => p,
        None => Seq::empty(),
    } + " HTTP/1.1"@
}

/// Example: GET /example/hello?nonce=1023 HTTP/1.1
pub fn create_request_line(method: &str, orig_uri: &RequestUri) -> (r: String)
    ensures
        r@ == request_line(method@, crate::forwarded::opt_text(orig_uri.path_and_query)),
{
    let mut res = text::concat(method, " ");
    if let Some(paq) = &orig_uri.path_and_query {
        res.push_str(paq.as_str());
    }
    res.push_str(" HTTP/1.1");
    assert(res@ =~= request_line(method@, crate::forwarded::opt_text(orig_uri.path_and_query)));
    res
}

/// What is made of a connector's connection.
#[derive(Debug)]
pub enum Harvest {
    /// A socket that serves one request.
    V1(RouterSocketInfo),
    /// A socket that serves several requests.
    V3(RouterSocketInfo),
    /// The version is not supported and the connection is closed.
    Close,
}

/// Whether a socket is one that a connector made, under an identifier of its own.
pub open spec fn is_harvested(
    s: RouterSocketInfo,
    connector_id: Seq<char>,
    component_name: Seq<char>,
    cranker_version: Seq<char>,
    domain: Seq<char>,
    route: Seq<char>,
    addr: SocketAddr,
) -> bool {
    &&& s.router_socket_id@.len() == 36
    &&& s.connector_id@ == connector_id
    &&& s.component_name@ == component_name
    &&& s.cranker_version@ == cranker_version
    &&& s.domain@ == domain
    &&& s.route@ == route
    &&& s.service_address == addr
}

/// Makes a socket of a connector's connection. It gets a random identifier. Only a socket by
/// version 3 has a domain.
pub fn harvest_router_socket(
    connector_id: String,
    component_name: String,
    cranker_version: &'static str,
    domain: String,
    route: String,
    addr: SocketAddr,
) -> (r: Harvest)
    ensures
        match r {
            Harvest::V1(s) => cranker_version@ == CRANKER_V_1_0@ && is_harvested(
                s,
                connector_id@,
                component_name@,
                cranker_version@,
                "*"@,
                route@,
                addr,
            ),
            Harvest::V3(s) => cranker_version@ == CRANKER_V_3_0@ && is_harvested(
                s,
                connector_id@,
                component_name@,
                cranker_version@,
                domain@,
                route@,
                addr,
            ),
            Harvest::Close => cranker_version@ != CRANKER_V_1_0@ && cranker_version@
                != CRANKER_V_3_0@,
        },
{
    let is_v1 = text::str_eq(cranker_version, CRANKER_V_1_0);
    if !is_v1 && !text::str_eq(cranker_version, CRANKER_V_3_0) {
        return Harvest::Close;
    }
    let s = RouterSocketInfo {
        router_socket_id: new_uuid(),
        route,
        component_name,
        connector_id,
        domain: if is_v1 {
            "*".to_string()
        } else {
            domain
        },
        service_address: addr,
        cranker_version,
    };
    if is_v1 {
        Harvest::V1(s)
    } else {
        Harvest::V3(s)
    }
}

/// Whether a socket goes back to the farm as soon as it was picked: only one by version 3 can
/// serve more than one request.
pub fn is_put_back(cranker_version: &str) -> (r: bool)
    ensures
        r == (cranker_version@ == CRANKER_V_3_0@),
{
    text::str_eq(cranker_version, CRANKER_V_3_0)
}

/// Something that happens on the receiving side of a connection.
#[derive(Debug)]
pub enum RecvEvent {
    /// A message came.
    Received(WsMessage),
    /// The message that had come was taken, with this result.
    Handled(Result<(), CrankerRouterException>),
    /// Receiving failed; the text shows how.
    Failed(String),
    /// Nothing more comes.
    Ended,
    /// Nothing has come for too long.
    IdleTimeout,
}

/// What is to be done about it.
#[derive(Debug)]
pub enum RecvAction {
    /// Hand the message to the socket. The time without messages starts anew.
    Handle(WsMessage),
    /// Wait for the next message, after reporting the error if there is one.
    Next(Option<CrankerRouterException>),
    /// Send the message to the connector, then report the error.
    SendThenReport(WsMessage, CrankerRouterException),
    /// Report the errors in their order and stop.
    Stop(Vec<CrankerRouterException>),
}

/// What an action is about.
#[verifier::ext_equal]
pub enum RecvActionView {
    Handle(MessageView),
    Next(Option<ExceptionView>),
    SendThenReport(MessageView, ExceptionView),
    Stop(Seq<ExceptionView>),
}

/// What each error of a sequence says.
pub open spec fn exception_views(v: Seq<CrankerRouterException>) -> Seq<ExceptionView> {
    v.map_values(|e: CrankerRouterException| e@)
}

impl View for RecvAction {
    type V = RecvActionView;

    open spec fn view(&self) -> RecvActionView {
        match self {
            RecvAction::Handle(m) => RecvActionView::Handle(m@),
            RecvAction::Next(e) => RecvActionView::Next(crate::exceptions::opt_exception(*e)),
            RecvAction::SendThenReport(m, e) => RecvActionView::SendThenReport(m@, e@),
            RecvAction::Stop(v) => RecvActionView::Stop(exception_views(v@)),
        }
    }
}

/// The errors with which receiving ends: what it failed with, and that the socket has not been
/// removed, if it has not.
pub open spec fn last_errors(failure: Option<Seq<char>>, is_removed: bool) -> Seq<ExceptionView> {
    let first = match failure {
        Some(shown) => seq![
            ExceptionView::of("underlying wss recv err: "@ + shown + "."@),
        ],
        None => Seq::empty(),
    };
    if is_removed {
        first
    } else {
        first.push(
            ExceptionView::of("underlying wss already closed but still is_removed = false"@),
        )
    }
}

/// What is to be done about an event on the receiving side.
pub open spec fn recv_step(ev: RecvEvent, is_removed: bool) -> RecvActionView {
    match ev {
        RecvEvent::Received(m) => RecvActionView::Handle(m@),
        RecvEvent::Handled(Ok(_)) => RecvActionView::Next(None),
        RecvEvent::Handled(Err(e)) => RecvActionView::Next(Some(e@)),
        RecvEvent::Failed(shown) => RecvActionView::Stop(last_errors(Some(shown@), is_removed)),
        RecvEvent::Ended => RecvActionView::Stop(last_errors(None, is_removed)),
        RecvEvent::IdleTimeout => RecvActionView::SendThenReport(
            MessageView::Close(Some((1001, "timeout"@))),
            ExceptionView::of("uwss read idle timeout"@).with_err_kind(CrexKind::Timeout_0001),
        ),
    }
}

/// Decides what is done about an event on the receiving side of a connection.
pub fn pipe_underlying_wss_recv_and_send_err_to_err_chan_if_necessary(
    ev: RecvEvent,
    is_removed: bool,
) -> (r: RecvAction)
    ensures
        r@ == recv_step(ev, is_removed),
{
    match ev {
        RecvEvent::Received(m) => RecvAction::Handle(m),
        RecvEvent::Handled(Ok(_)) => RecvAction::Next(None),
        RecvEvent::Handled(Err(e)) => RecvAction::Next(Some(e)),
        RecvEvent::Failed(shown) => {
            let mut reason = text::concat("underlying wss recv err: ", shown.as_str());
            reason.push_str(".");
            let mut errors: Vec<CrankerRouterException> = Vec::new();
            errors.push(CrankerRouterException::new(reason));
            if !is_removed {
                errors.push(
                    CrankerRouterException::new(
                        "underlying wss already closed but still is_removed = false".to_string(),
                    ),
                );
            }
            assert(exception_views(errors@) =~= last_errors(Some(shown@), is_removed));
            RecvAction::Stop(errors)
        },
        RecvEvent::Ended => {
            let mut errors: Vec<CrankerRouterException> = Vec::new();
            if !is_removed {
                errors.push(
                    CrankerRouterException::new(
                        "underlying wss already closed but still is_removed = false".to_string(),
                    ),
                );
            }
            assert(exception_views(errors@) =~= last_errors(None, is_removed));
            RecvAction::Stop(errors)
        },
        RecvEvent::IdleTimeout => RecvAction::SendThenReport(
            WsMessage::Close(Some(CloseFrame { code: 1001, reason: "timeout".to_string() })),
            CrankerRouterException::new("uwss read idle timeout".to_string()).with_err_kind(
                CrexKind::Timeout_0001,
            ),
        ),
    }
}

/// Something that happens on the sending side of a connection.
#[derive(Debug)]
pub enum SendEvent {
    /// An error was reported.
    Error(CrankerRouterException),
    /// The last message, about this error, was sent or could not be.
    CloseSent(CrankerRouterException),
    /// A message is to be sent.
    Task(WsMessage),
    /// The message could not be sent; the text shows why.
    SendFailed { message: WsMessage, shown: String },
    /// No more messages are to be sent.
    TasksClosed,
    /// Nothing was sent for a while, and the socket is still there or not.
    NoWrite { socket_exists: bool },
}

/// One thing to be done on the sending side of a connection.
#[derive(Debug)]
pub enum SendAction {
    /// Let the socket keep the error.
    ProvideError(CrankerRouterException),
    /// Take no more messages to send.
    CloseTasks,
    /// Wait until all that was sent is on its way.
    Flush,
    /// Send a message. That none was sent for a while is forgotten.
    Send(WsMessage),
    /// Count bytes from the client.
    CountBytes(i32),
    /// Take the socket out of the farm.
    RemoveFromFarm,
    /// End all that goes on over the socket.
    Terminate(CrankerRouterException),
    /// Report an error.
    Report(CrankerRouterException),
    /// Put a message among those to be sent.
    Enqueue(WsMessage),
    /// Close the connection.
    CloseConnection,
    /// Stop sending.
    Stop,
    /// Stop looking for silence.
    StopPinging,
}

/// What an action is about.
#[verifier::ext_equal]
pub enum SendActionView {
    ProvideError(ExceptionView),
    CloseTasks,
    Flush,
    Send(MessageView),
    CountBytes(i32),
    RemoveFromFarm,
    Terminate(ExceptionView),
    Report(ExceptionView),
    Enqueue(MessageView),
    CloseConnection,
    Stop,
    StopPinging,
}

impl View for SendAction {
    type V = SendActionView;

    open spec fn view(&self) -> SendActionView {
        match self {
            SendAction::ProvideError(e) => SendActionView::ProvideError(e@),
            SendAction::CloseTasks => SendActionView::CloseTasks,
            SendAction::Flush => SendActionView::Flush,
            SendAction::Send(m) => SendActionView::Send(m@),
            SendAction::CountBytes(n) => SendActionView::CountBytes(*n),
            SendAction::RemoveFromFarm => SendActionView::RemoveFromFarm,
            SendAction::Terminate(e) => SendActionView::Terminate(e@),
            SendAction::Report(e) => SendActionView::Report(e@),
            SendAction::Enqueue(m) => SendActionView::Enqueue(m@),
            SendAction::CloseConnection => SendActionView::CloseConnection,
            SendAction::Stop => SendActionView::Stop,
            SendAction::StopPinging => SendActionView::StopPinging,
        }
    }
}

/// What the actions of a sequence are about.
pub open spec fn send_actions(v: Seq<SendAction>) -> Seq<SendActionView> {
    v.map_values(|a: SendAction| a@)
}

/// How many bytes of a reason go into the last message.
pub const CLOSE_REASON_MAX: usize = 100;

/// Whether a reason can be cut to fit into the last message: where it is cut a character must
/// start.
pub open spec fn can_be_cut(reason: Seq<char>) -> bool {
    encode_utf8(reason).len() > CLOSE_REASON_MAX ==> is_char_boundary(
        encode_utf8(reason),
        CLOSE_REASON_MAX as int,
    )
}

/// Whether `cut` is what goes of a reason into the last message.
pub open spec fn is_cut_reason(reason: Seq<char>, cut: Seq<char>) -> bool {
    if encode_utf8(reason).len() > CLOSE_REASON_MAX {
        encode_utf8(cut) == encode_utf8(reason).take(CLOSE_REASON_MAX as int)
    } else {
        cut == reason
    }
}

/// Whether a reason can be cut to fit into the last message.
pub fn is_reason_cuttable(reason: &str) -> (r: bool)
    ensures
        r == can_be_cut(reason@),
{
    if reason.as_bytes().len() > CLOSE_REASON_MAX {
        reason.is_char_boundary(CLOSE_REASON_MAX)
    } else {
        true
    }
}

/// What goes of a reason into the last message.
fn cut_reason(reason: &str) -> (r: String)
    requires
        can_be_cut(reason@),
    ensures
        is_cut_reason(reason@, r@),
{
    if reason.as_bytes().len() > CLOSE_REASON_MAX {
        let (front, _) = reason.split_at(CLOSE_REASON_MAX);
        assert(encode_utf8(front@) =~= encode_utf8(reason@).take(CLOSE_REASON_MAX as int));
        front.to_string()
    } else {
        reason.to_string()
    }
}

/// Whether the sending side can take an event: the reason of an error can be cut, and the length
/// of a message that is counted fits into the count.
pub open spec fn send_event_ok(ev: SendEvent) -> bool {
    match ev {
        SendEvent::Error(e) => can_be_cut(e@.reason),
        SendEvent::Task(WsMessage::Text(s)) => encode_utf8(s@).len() <= i32::MAX,
        SendEvent::Task(WsMessage::Binary(b)) => octets::octets(b).len() <= i32::MAX,
        _ => true,
    }
}

/// How a message that could not be sent is reported.
pub open spec fn not_sent(m: WsMessage, shown: Seq<char>) -> ExceptionView {
    ExceptionView::of(m.send_error() + " : "@ + shown)
}

/// Whether `out` is what is to be done about an event on the sending side.
pub open spec fn send_step(ev: SendEvent, is_removed: bool, out: Seq<SendActionView>) -> bool {
    match ev {
        SendEvent::Error(e) => {
            let first = if is_removed {
                Seq::empty()
            } else {
                seq![SendActionView::ProvideError(e@)]
            };
            exists|cut: Seq<char>| #[trigger]
                is_cut_reason(e@.reason, cut) && out == first + seq![
                    SendActionView::CloseTasks,
                    SendActionView::Flush,
                    SendActionView::Send(MessageView::Close(Some((1011, cut)))),
                ]
        },
        SendEvent::CloseSent(e) => {
            let first = if is_removed {
                Seq::empty()
            } else {
                seq![SendActionView::RemoveFromFarm]
            };
            out == first + seq![SendActionView::Terminate(e@), SendActionView::Stop]
        },
        SendEvent::Task(WsMessage::Text(s)) => out == seq![
            SendActionView::CountBytes(encode_utf8(s@).len() as i32),
            SendActionView::Send(MessageView::Text(s@)),
        ],
        SendEvent::Task(WsMessage::Binary(b)) => out == seq![
            SendActionView::CountBytes(octets::octets(b).len() as i32),
            SendActionView::Send(MessageView::Binary(octets::octets(b))),
        ],
        SendEvent::Task(m) => out == seq![SendActionView::Send(m@)],
        SendEvent::SendFailed { message, shown } => match message {
            WsMessage::Ping(_) | WsMessage::Pong(_) => if is_removed {
                out == seq![SendActionView::CloseConnection, SendActionView::Stop]
            } else {
                out == seq![SendActionView::Report(not_sent(message, shown@))]
            },
            _ => out == seq![SendActionView::Report(not_sent(message, shown@))],
        },
        SendEvent::TasksClosed => out == seq![SendActionView::Stop],
        SendEvent::NoWrite { socket_exists } => if socket_exists {
            out == seq![SendActionView::Enqueue(MessageView::Ping(encode_utf8("ping"@)))]
        } else {
            out == seq![SendActionView::StopPinging]
        },
    }
}

fn report(message: &WsMessage, shown: &str) -> (r: SendAction)
    ensures
        r@ == SendActionView::Report(not_sent(*message, shown@)),
{
    let mut reason = text::concat(message.err_msg_for_uwss(), " : ");
    reason.push_str(shown);
    SendAction::Report(CrankerRouterException::new(reason))
}

/// Decides what is done about an event on the sending side of a connection.
pub fn pipe_and_queue_the_wss_send_task_and_handle_err_chan(
    ev: SendEvent,
    is_removed: bool,
) -> (r: Vec<SendAction>)
    requires
        send_event_ok(ev),
    ensures
        send_step(ev, is_removed, send_actions(r@)),
{
    let mut out: Vec<SendAction> = Vec::new();
    match ev {
        SendEvent::Error(crex) => {
            if !is_removed {
                out.push(SendAction::ProvideError(crex.clone()));
            }
            out.push(SendAction::CloseTasks);
            out.push(SendAction::Flush);
            let reason = cut_reason(crex.reason.as_str());
            let ghost cut = reason@;
            out.push(
                SendAction::Send(WsMessage::Close(Some(CloseFrame { code: 1011, reason }))),
            );
            proof {
                let e = crex@;
                let first = if is_removed {
                    Seq::empty()
                } else {
                    seq![SendActionView::ProvideError(e)]
                };
                assert(is_cut_reason(e.reason, cut));
                assert(send_actions(out@) =~= first + seq![
                    SendActionView::CloseTasks,
                    SendActionView::Flush,
                    SendActionView::Send(MessageView::Close(Some((1011, cut)))),
                ]);
            }
        },
        SendEvent::CloseSent(crex) => {
            if !is_removed {
                out.push(SendAction::RemoveFromFarm);
            }
            let ghost e = crex@;
            out.push(SendAction::Terminate(crex));
            out.push(SendAction::Stop);
            proof {
                let first = if is_removed {
                    Seq::empty()
                } else {
                    seq![SendActionView::RemoveFromFarm]
                };
                assert(send_actions(out@) =~= first + seq![
                    SendActionView::Terminate(e),
                    SendActionView::Stop,
                ]);
            }
        },
        SendEvent::Task(WsMessage::Text(s)) => {
            let n: usize = s.as_str().as_bytes().len();
            let ghost t = s@;
            out.push(SendAction::CountBytes(n as i32));
            out.push(SendAction::Send(WsMessage::Text(s)));
            assert(send_actions(out@) =~= seq![
                SendActionView::CountBytes(encode_utf8(t).len() as i32),
                SendActionView::Send(MessageView::Text(t)),
            ]);
        },
        SendEvent::Task(WsMessage::Binary(b)) => {
            let n: usize = remaining(&b);
            let ghost o = octets::octets(b);
            out.push(SendAction::CountBytes(n as i32));
            out.push(SendAction::Send(WsMessage::Binary(b)));
            assert(send_actions(out@) =~= seq![
                SendActionView::CountBytes(o.len() as i32),
                SendActionView::Send(MessageView::Binary(o)),
            ]);
        },
        SendEvent::Task(m) => {
            let ghost view = m@;
            out.push(SendAction::Send(m));
            assert(send_actions(out@) =~= seq![SendActionView::Send(view)]);
        },
        SendEvent::SendFailed { message, shown } => {
            let ghost e = not_sent(message, shown@);
            let is_ping_or_pong = match &message {
                WsMessage::Ping(_) | WsMessage::Pong(_) => true,
                _ => false,
            };
            if is_ping_or_pong && is_removed {
                out.push(SendAction::CloseConnection);
                out.push(SendAction::Stop);
                assert(send_actions(out@) =~= seq![
                    SendActionView::CloseConnection,
                    SendActionView::Stop,
                ]);
            } else {
                out.push(report(&message, shown.as_str()));
                assert(send_actions(out@) =~= seq![SendActionView::Report(e)]);
            }
        },
        SendEvent::TasksClosed => {
            out.push(SendAction::Stop);
            assert(send_actions(out@) =~= seq![SendActionView::Stop]);
        },
        SendEvent::NoWrite { socket_exists } => {
            if socket_exists {
                let mut bm = octets_new();
                put_slice(&mut bm, "ping".as_bytes());
                let m = WsMessage::Ping(freeze(bm));
                assert(octets::octets(m->Ping_0) =~= encode_utf8("ping"@));
                let ghost view = m@;
                out.push(SendAction::Enqueue(m));
                assert(send_actions(out@) =~= seq![SendActionView::Enqueue(view)]);
            } else {
                out.push(SendAction::StopPinging);
                assert(send_actions(out@) =~= seq![SendActionView::StopPinging]);
            }
        },
    }
    out
}

/// The reason in the last message to a connector has no more bytes than fit into it, whatever
/// the error.
pub proof fn law_last_reason_fits(
    e: CrankerRouterException,
    is_removed: bool,
    out: Seq<SendActionView>,
    i: int,
)
    requires
        send_step(SendEvent::Error(e), is_removed, out),
        0 <= i < out.len(),
    ensures
        out[i] matches SendActionView::Send(m) ==> m matches MessageView::Close(Some((code, reason)))
            && code == 1011 && encode_utf8(reason).len() <= CLOSE_REASON_MAX,
{
}

/// An error ends all that goes on over the socket: no more messages are taken, and once the last
/// one was sent the socket leaves the farm, unless it has left it, and sending stops.
pub proof fn law_error_ends_socket(
    e: CrankerRouterException,
    is_removed: bool,
    first: Seq<SendActionView>,
    second: Seq<SendActionView>,
)
    requires
        send_step(SendEvent::Error(e), is_removed, first),
        send_step(SendEvent::CloseSent(e), is_removed, second),
    ensures
        first.contains(SendActionView::CloseTasks),
        second.contains(SendActionView::Terminate(e@)),
        second.last() == SendActionView::Stop,
        !is_removed ==> first[0] == SendActionView::ProvideError(e@) && second[0]
            == SendActionView::RemoveFromFarm,
{
    let n: int = if is_removed {
        0
    } else {
        1
    };
    assert(first[n] == SendActionView::CloseTasks);
    assert(second[n] == SendActionView::Terminate(e@));
}

} // verus!
