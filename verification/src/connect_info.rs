//! What is known of the connection that a request came by.

use crate::net::SocketAddr;
use vstd::prelude::*;

verus! {

/// The session of an encrypted connection.
#[derive(Clone, Debug)]
pub struct TlsSessionInfo {
    pub sni: Option<String>,
    pub alpn: Option<Vec<u8>>,
    pub protocol_version: Option<String>,
    pub cipher_suite: Option<String>,
    /// The certificates that the client has shown, each in its binary form.
    pub peer_certs: Option<Vec<Vec<u8>>>,
    /// See [`build_transport_params_snapshot`].
    pub quic_transport_parameters: Option<Vec<u8>>,
}

/// The connection that a request came by.
#[derive(Clone, Debug)]
pub struct CrankerConnectInfo {
    pub remote_addr: SocketAddr,
    pub tls_info: Option<TlsSessionInfo>,
}

impl CrankerConnectInfo {
    /// A connection that is not encrypted.
    pub fn from_tcp(remote_addr: SocketAddr) -> (r: Self)
        ensures
            r.remote_addr == remote_addr,
            r.tls_info is None,
    {
        CrankerConnectInfo { remote_addr, tls_info: None }
    }

    /// An encrypted connection.
    pub fn from_tls(
        remote_addr: SocketAddr,
        sni: Option<String>,
        alpn: Option<Vec<u8>>,
        protocol_version: Option<String>,
        cipher_suite: Option<String>,
    ) -> (r: Self)
        ensures
            r.remote_addr == remote_addr,
            r.tls_info == Some(
                (TlsSessionInfo {
                    sni,
                    alpn,
                    protocol_version,
                    cipher_suite,
                    peer_certs: None,
                    quic_transport_parameters: None,
                }),
            ),
    {
        CrankerConnectInfo {
            remote_addr,
            tls_info: Some(
                TlsSessionInfo {
                    sni,
                    alpn,
                    protocol_version,
                    cipher_suite,
                    peer_certs: None,
                    quic_transport_parameters: None,
                },
            ),
        }
    }

    /// A QUIC connection, whose protocol version and cipher suite are not known.
    pub fn from_quinn_connection(
        remote_addr: SocketAddr,
        sni: Option<String>,
        alpn: Option<Vec<u8>>,
        peer_certs: Option<Vec<Vec<u8>>>,
        quic_transport_parameters: Option<Vec<u8>>,
    ) -> (r: Self)
        ensures
            r.remote_addr == remote_addr,
            r.tls_info == Some(
                (TlsSessionInfo {
                    sni,
                    alpn,
                    protocol_version: None,
                    cipher_suite: None,
                    peer_certs,
                    quic_transport_parameters,
                }),
            ),
    {
        CrankerConnectInfo {
            remote_addr,
            tls_info: Some(
                TlsSessionInfo {
                    sni,
                    alpn,
                    protocol_version: None,
                    cipher_suite: None,
                    peer_certs,
                    quic_transport_parameters,
                },
            ),
        }
    }
}

/// The `n` lowest bytes of a number, the least significant first.
pub open spec fn le_octets(v: int, n: nat) -> Seq<u8>
    decreases n,
{
    if n == 0 {
        Seq::empty()
    } else {
        seq![(v % 256) as u8] + le_octets(v / 256, (n - 1) as nat)
    }
}

/// The number whose bytes these are, the least significant first.
pub open spec fn le_value(s: Seq<u8>) -> int
    decreases s.len(),
{
    if s.len() == 0 {
        0
    } else {
        s[0] + 256 * le_value(s.drop_first())
    }
}

/// Two to the eighth, `n` times over.
pub open spec fn le_limit(n: nat) -> int
    decreases n,
{
    if n == 0 {
        1
    } else {
        256 * le_limit((n - 1) as nat)
    }
}

/// The bytes of a number that fits into them give it back.
pub proof fn law_le_octets(v: int, n: nat)
    requires
        0 <= v < le_limit(n),
    ensures
        le_octets(v, n).len() == n,
        le_value(le_octets(v, n)) == v,
    decreases n,
{
    if n > 0 {
        assert(v / 256 < le_limit((n - 1) as nat));
        law_le_octets(v / 256, (n - 1) as nat);
        assert(le_octets(v, n).drop_first() =~= le_octets(v / 256, (n - 1) as nat));
    }
}

/// A parameter: its key, the number of bytes of its value, and these.
pub open spec fn param(key: u8, v: u64) -> Seq<u8> {
    seq![key, 8u8] + le_octets(v as int, 8)
}

pub const KEY_MAX_DATAGRAM_SIZE: u8 = 0x20;

pub const KEY_DATAGRAM_SEND_BUFFER_SPACE: u8 = 0x21;

pub const KEY_RTT_MICROSECONDS: u8 = 0x22;

fn put_param(buf: &mut Vec<u8>, key: u8, v: u64)
    ensures
        final(buf)@ == old(buf)@ + param(key, v),
{
    buf.push(key);
    buf.push(8);
    let mut rest: u64 = v;
    let mut n: u8 = 8;
    let ghost whole = buf@ + le_octets(v as int, 8);
    while n > 0
        invariant
            n <= 8,
            whole == buf@ + le_octets(rest as int, n as nat),
        decreases n,
    {
        let ghost before = buf@;
        buf.push((rest % 256) as u8);
        assert(le_octets(rest as int, n as nat) == seq![(rest as int % 256) as u8] + le_octets(
            rest as int / 256,
            (n - 1) as nat,
        ));
        assert(whole =~= buf@ + le_octets(rest as int / 256, (n - 1) as nat));
        rest = rest / 256;
        n = n - 1;
    }
    assert(buf@ =~= whole);
    assert(buf@ =~= old(buf)@ + param(key, v));
}

/// The parameters of a QUIC connection, in a simple binary format: each entry is
/// `[key: u8][value_len: u8][value_bytes...]`, with the least significant byte of a value first.
pub open spec fn transport_params(
    max_datagram_size: Option<u64>,
    datagram_send_buffer_space: u64,
    rtt_microseconds: u64,
) -> Seq<u8> {
    (match max_datagram_size {
        Some(v) => param(KEY_MAX_DATAGRAM_SIZE, v),
        None => Seq::empty(),
    }) + param(KEY_DATAGRAM_SEND_BUFFER_SPACE, datagram_send_buffer_space) + param(
        KEY_RTT_MICROSECONDS,
        rtt_microseconds,
    )
}

/// Build a minimal snapshot of the QUIC transport parameters.
pub fn build_transport_params_snapshot(
    max_datagram_size: Option<u64>,
    datagram_send_buffer_space: u64,
    rtt_microseconds: u64,
) -> (r: Option<Vec<u8>>)
    ensures
        r matches Some(v) && v@ == transport_params(
            max_datagram_size,
            datagram_send_buffer_space,
            rtt_microseconds,
        ),
{
    let mut buf: Vec<u8> = Vec::new();
    if let Some(max_dg) = max_datagram_size {
        put_param(&mut buf, KEY_MAX_DATAGRAM_SIZE, max_dg);
    }
    put_param(&mut buf, KEY_DATAGRAM_SEND_BUFFER_SPACE, datagram_send_buffer_space);
    put_param(&mut buf, KEY_RTT_MICROSECONDS, rtt_microseconds);
    assert(buf@ =~= transport_params(
        max_datagram_size,
        datagram_send_buffer_space,
        rtt_microseconds,
    ));
    Some(buf)
}

} // verus!
