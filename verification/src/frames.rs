//! The frames of protocol version 3, in which many requests share one connection.
//!
//! A frame starts with a byte for its type, a byte of flags and the number of the request that
//! it belongs to, in four bytes. The payload follows.

use crate::octets::{
    freeze, get_i32, get_u8, octets_new, octets_to_vec, put_i32, put_octets, put_slice, put_u8,
    remaining,
};
use crate::{octets, text};
use bytes::Bytes;
use vstd::prelude::*;
use vstd::utf8::{decode_utf8, encode_utf8, valid_utf8};

verus! {

pub const HEADER_LEN_IN_BYTES: usize = 6;

pub const _END_STREAM_FLAG_MASK: u8 = 0b00000001;

pub const _END_HEADER_FLAG_MASK: u8 = 0b00000100;

pub const MESSAGE_TYPE_DATA: u8 = 0;

pub const MESSAGE_TYPE_HEADER: u8 = 1;

pub const MESSAGE_TYPE_RST_STREAM: u8 = 3;

pub const MESSAGE_TYPE_WINDOW_UPDATE: u8 = 8;

pub const ERROR_INTERNAL: i32 = 1;

/// How many characters of the header text one frame takes at most, where the text is long.
pub const HEADER_CHUNK_SIZE: usize = 16000;

/// The bytes of a frame.
pub open spec fn frame(msg_type: u8, flags: u8, req_id: i32, payload: Seq<u8>) -> Seq<u8> {
    seq![msg_type, flags] + octets::be_octets(req_id) + payload
}

/// Whether the flags say that the stream ends with the frame.
pub open spec fn ends_stream(flags: u8) -> bool {
    flags % 2 == 1
}

/// Whether the flags say that the headers end with the frame.
pub open spec fn ends_header(flags: u8) -> bool {
    flags / 4 % 2 == 1
}

/// The flags of a header frame.
pub open spec fn header_flags(is_header_end: bool, is_stream_end: bool) -> u8 {
    match (is_header_end, is_stream_end) {
        (false, false) => 0,
        (false, true) => 1,
        (true, false) => 4,
        (true, true) => 5,
    }
}

pub fn judge_is_stream_end_from_flags(flags: u8) -> (r: bool)
    ensures
        r == ends_stream(flags),
{
    assert((flags & 0b00000001u8 == 0b00000001u8) == (flags % 2 == 1)) by (bit_vector);
    flags & _END_STREAM_FLAG_MASK == _END_STREAM_FLAG_MASK
}

pub fn judge_is_header_end_from_flags(flags: u8) -> (r: bool)
    ensures
        r == ends_header(flags),
{
    assert((flags & 0b00000100u8 == 0b00000100u8) == (flags / 4 % 2 == 1)) by (bit_vector);
    flags & _END_HEADER_FLAG_MASK == _END_HEADER_FLAG_MASK
}

/// Tells the connector how many more bytes it may send.
pub fn window_update_message(req_id: i32, window_update: i32) -> (r: Bytes)
    ensures
        octets::octets(r) == frame(
            MESSAGE_TYPE_WINDOW_UPDATE,
            0,
            req_id,
            octets::be_octets(window_update),
        ),
{
    let mut bm = octets_new();
    put_u8(&mut bm, MESSAGE_TYPE_WINDOW_UPDATE);
    put_u8(&mut bm, 0);
    put_i32(&mut bm, req_id);
    put_i32(&mut bm, window_update);
    let r = freeze(bm);
    assert(octets::octets(r) =~= frame(
        MESSAGE_TYPE_WINDOW_UPDATE,
        0,
        req_id,
        octets::be_octets(window_update),
    ));
    r
}

/// Tells the connector that a request is over before its time.
pub fn rst_message(req_id: i32, err_code: i32, msg: String) -> (r: Bytes)
    ensures
        octets::octets(r) == frame(
            MESSAGE_TYPE_RST_STREAM,
            0,
            req_id,
            octets::be_octets(err_code) + encode_utf8(msg@),
        ),
{
    let mut bm = octets_new();
    put_u8(&mut bm, MESSAGE_TYPE_RST_STREAM);
    put_u8(&mut bm, 0);
    put_i32(&mut bm, req_id);
    put_i32(&mut bm, err_code);
    put_slice(&mut bm, msg.as_str().as_bytes());
    let r = freeze(bm);
    assert(octets::octets(r) =~= frame(
        MESSAGE_TYPE_RST_STREAM,
        0,
        req_id,
        octets::be_octets(err_code) + encode_utf8(msg@),
    ));
    r
}

/// What an optional buffer holds.
pub open spec fn opt_octets(opt_bin: Option<Bytes>) -> Seq<u8> {
    match opt_bin {
        Some(bin) => octets::octets(bin),
        None => Seq::empty(),
    }
}

/// A piece of a body.
pub fn data_messages(req_id: i32, is_end: bool, opt_bin: Option<Bytes>) -> (r: Bytes)
    ensures
        octets::octets(r) == frame(
            MESSAGE_TYPE_DATA,
            if is_end {
                1
            } else {
                0
            },
            req_id,
            opt_octets(opt_bin),
        ),
{
    let ghost payload = opt_octets(opt_bin);
    let mut bm = octets_new();
    put_u8(&mut bm, MESSAGE_TYPE_DATA);
    put_u8(
        &mut bm,
        if is_end {
            1u8
        } else {
            0u8
        },
    );
    put_i32(&mut bm, req_id);
    if let Some(bin) = opt_bin {
        put_octets(&mut bm, bin);
    }
    let r = freeze(bm);
    assert(octets::octets(r) =~= frame(
        MESSAGE_TYPE_DATA,
        if is_end {
            1
        } else {
            0
        },
        req_id,
        payload,
    ));
    r
}

/// A piece of the headers.
pub fn header_message(
    req_id: i32,
    is_header_end: bool,
    is_stream_end: bool,
    may_partial_header_line: &str,
) -> (r: Bytes)
    ensures
        octets::octets(r) == frame(
            MESSAGE_TYPE_HEADER,
            header_flags(is_header_end, is_stream_end),
            req_id,
            encode_utf8(may_partial_header_line@),
        ),
{
    let mut flags: u8 = 0;
    if is_stream_end {
        flags = flags | _END_STREAM_FLAG_MASK;
    }
    if is_header_end {
        flags = flags | _END_HEADER_FLAG_MASK;
    }
    assert(0u8 | 0b00000001u8 == 1u8) by (bit_vector);
    assert(0u8 | 0b00000100u8 == 4u8) by (bit_vector);
    assert(1u8 | 0b00000100u8 == 5u8) by (bit_vector);
    let mut bm = octets_new();
    put_u8(&mut bm, MESSAGE_TYPE_HEADER);
    put_u8(&mut bm, flags);
    put_i32(&mut bm, req_id);
    put_slice(&mut bm, may_partial_header_line.as_bytes());
    let r = freeze(bm);
    assert(octets::octets(r) =~= frame(
        MESSAGE_TYPE_HEADER,
        header_flags(is_header_end, is_stream_end),
        req_id,
        encode_utf8(may_partial_header_line@),
    ));
    r
}

/// The number of pieces of a long header text.
pub open spec fn chunk_count(line: Seq<char>) -> int {
    (line.len() + HEADER_CHUNK_SIZE - 1) / HEADER_CHUNK_SIZE as int
}

/// The `i`th piece of a long header text.
pub open spec fn chunk(line: Seq<char>, i: int) -> Seq<char> {
    let from = i * HEADER_CHUNK_SIZE;
    let to = if from + HEADER_CHUNK_SIZE < line.len() {
        from + HEADER_CHUNK_SIZE
    } else {
        line.len() as int
    };
    line.subrange(from, to)
}

/// The frames of a header text: one, or for a text of many bytes one for each piece, of which
/// the last ends the headers.
pub open spec fn header_frames(
    req_id: i32,
    is_header_end: bool,
    is_stream_end: bool,
    line: Seq<char>,
) -> Seq<Seq<u8>> {
    if encode_utf8(line).len() < HEADER_CHUNK_SIZE {
        seq![
            frame(
                MESSAGE_TYPE_HEADER,
                header_flags(is_header_end, is_stream_end),
                req_id,
                encode_utf8(line),
            ),
        ]
    } else {
        Seq::new(
            chunk_count(line) as nat,
            |i: int|
                frame(
                    MESSAGE_TYPE_HEADER,
                    header_flags(i == chunk_count(line) - 1, is_stream_end),
                    req_id,
                    encode_utf8(chunk(line, i)),
                ),
        )
    }
}

/// What each buffer of a sequence holds.
pub open spec fn all_octets(v: Seq<Bytes>) -> Seq<Seq<u8>> {
    v.map_values(|b: Bytes| octets::octets(b))
}

/// The frames of a header text.
pub fn header_messages(
    req_id: i32,
    is_header_end: bool,
    is_stream_end: bool,
    full_header_line: String,
) -> (r: Vec<Bytes>)
    ensures
        all_octets(r@) == header_frames(
            req_id,
            is_header_end,
            is_stream_end,
            full_header_line@,
        ),
{
    let mut res: Vec<Bytes> = Vec::new();
    if full_header_line.as_str().as_bytes().len() < HEADER_CHUNK_SIZE {
        res.push(header_message(req_id, is_header_end, is_stream_end, full_header_line.as_str()));
        assert(all_octets(res@) =~= header_frames(
            req_id,
            is_header_end,
            is_stream_end,
            full_header_line@,
        ));
        return res;
    }
    let char_vec = text::chars_of(full_header_line.as_str());
    let ghost line = full_header_line@;
    let ghost frames = header_frames(req_id, is_header_end, is_stream_end, line);
    let n: usize = char_vec.len();
    let count: usize = n / HEADER_CHUNK_SIZE + (if n % HEADER_CHUNK_SIZE == 0 {
        0usize
    } else {
        1usize
    });
    assert(count == chunk_count(line));
    let mut i: usize = 0;
    while i < count
        invariant
            i <= count,
            count == chunk_count(line),
            count <= n / HEADER_CHUNK_SIZE + 1,
            n == char_vec@.len(),
            char_vec@ == line,
            frames == header_frames(req_id, is_header_end, is_stream_end, line),
            encode_utf8(line).len() >= HEADER_CHUNK_SIZE,
            all_octets(res@) == frames.take(i as int),
        decreases count - i,
    {
        assert(i * HEADER_CHUNK_SIZE < n);
        let from: usize = i * HEADER_CHUNK_SIZE;
        let to: usize = if n - from > HEADER_CHUNK_SIZE {
            from + HEADER_CHUNK_SIZE
        } else {
            n
        };
        let part = text::string_between(&char_vec, from, to);
        let is_last = i == count - 1;
        let ghost before = res@;
        res.push(header_message(req_id, is_last, is_stream_end, part.as_str()));
        proof {
            assert(part@ =~= chunk(line, i as int));
            assert(all_octets(res@) =~= all_octets(before).push(frames[i as int]));
            assert(frames.take(i + 1) =~= frames.take(i as int).push(frames[i as int]));
        }
        i = i + 1;
    }
    assert(frames.take(frames.len() as int) =~= frames);
    res
}

/// The error code in a payload, or -1 where there is none.
pub open spec fn error_code(payload: Seq<u8>) -> int {
    if payload.len() >= 4 {
        octets::be_value(payload[0], payload[1], payload[2], payload[3])
    } else {
        -1
    }
}

/// What follows the error code in a payload.
pub open spec fn behind_error_code(payload: Seq<u8>) -> Seq<u8> {
    if payload.len() >= 4 {
        payload.skip(4)
    } else {
        payload
    }
}

/// The text in a payload, or none where there is no text.
pub open spec fn error_message(payload: Seq<u8>) -> Seq<char> {
    if payload.len() > 0 && valid_utf8(payload) {
        decode_utf8(payload)
    } else {
        Seq::empty()
    }
}

/// Takes the error code out of a payload.
pub fn get_error_code(bin: &mut Bytes) -> (r: i32)
    ensures
        r == error_code(octets::octets(*old(bin))),
        octets::octets(*final(bin)) == behind_error_code(octets::octets(*old(bin))),
{
    if remaining(bin) >= 4 {
        return get_i32(bin);
    }
    -1
}

/// The text in a payload.
pub fn get_error_message(bin: &Bytes) -> (r: String)
    ensures
        r@ == error_message(octets::octets(*bin)),
{
    if remaining(bin) > 0 {
        if let Some(msg) = text::utf8_to_string(octets_to_vec(bin)) {
            return msg;
        }
    }
    String::new()
}

/// The parts of a frame.
#[verifier::ext_equal]
pub struct FrameView {
    pub msg_type: u8,
    pub flags: u8,
    pub req_id: int,
    pub payload: Seq<u8>,
}

/// The parts of a frame, if it is long enough to have them.
pub open spec fn parts(bin: Seq<u8>) -> Option<FrameView> {
    if bin.len() < HEADER_LEN_IN_BYTES {
        None
    } else {
        Some(
            FrameView {
                msg_type: bin[0],
                flags: bin[1],
                req_id: octets::be_value(bin[2], bin[3], bin[4], bin[5]),
                payload: bin.skip(6),
            },
        )
    }
}

/// The parts of a frame.
pub struct Frame {
    pub msg_type: u8,
    pub flags: u8,
    pub req_id: i32,
    pub payload: Bytes,
}

impl View for Frame {
    type V = FrameView;

    open spec fn view(&self) -> FrameView {
        FrameView {
            msg_type: self.msg_type,
            flags: self.flags,
            req_id: self.req_id as int,
            payload: octets::octets(self.payload),
        }
    }
}

/// Takes a frame apart, if it is long enough.
pub fn read_frame(binary_msg: Bytes) -> (r: Option<Frame>)
    ensures
        match parts(octets::octets(binary_msg)) {
            Some(f) => r matches Some(x) && x@ == f,
            None => r is None,
        },
{
    let mut bin = binary_msg;
    if remaining(&bin) < 1 {
        return None;
    }
    let msg_type = get_u8(&mut bin);
    if remaining(&bin) < 1 {
        return None;
    }
    let flags = get_u8(&mut bin);
    if remaining(&bin) < 4 {
        return None;
    }
    let req_id = get_i32(&mut bin);
    let r = Frame { msg_type, flags, req_id, payload: bin };
    assert(r@ =~= parts(octets::octets(binary_msg))->0);
    Some(r)
}

/// A frame is read as it was written.
pub proof fn law_frame_is_read_back(msg_type: u8, flags: u8, req_id: i32, payload: Seq<u8>)
    ensures
        parts(frame(msg_type, flags, req_id, payload)) == Some(
            FrameView { msg_type, flags, req_id: req_id as int, payload },
        ),
{
    let f = frame(msg_type, flags, req_id, payload);
    octets::law_be_octets(req_id);
    let o = octets::be_octets(req_id);
    assert(f[2] == o[0] && f[3] == o[1] && f[4] == o[2] && f[5] == o[3]);
    assert(f.skip(6) =~= payload);
}

/// The flags of a header frame say what they were made for.
pub proof fn law_header_flags(is_header_end: bool, is_stream_end: bool)
    ensures
        ends_header(header_flags(is_header_end, is_stream_end)) == is_header_end,
        ends_stream(header_flags(is_header_end, is_stream_end)) == is_stream_end,
{
}

/// The payloads of several frames, one behind the other.
pub open spec fn payloads(frames: Seq<Seq<u8>>) -> Seq<u8>
    decreases frames.len(),
{
    if frames.len() == 0 {
        Seq::empty()
    } else {
        payloads(frames.drop_last()) + frames.last().skip(HEADER_LEN_IN_BYTES as int)
    }
}

proof fn lemma_encode_concat(a: Seq<char>, b: Seq<char>)
    ensures
        encode_utf8(a + b) == encode_utf8(a) + encode_utf8(b),
    decreases a.len(),
{
    if a.len() == 0 {
        assert(a + b =~= b);
        assert(encode_utf8(a) =~= Seq::empty());
        assert(encode_utf8(a) + encode_utf8(b) =~= encode_utf8(b));
    } else {
        lemma_encode_concat(a.drop_first(), b);
        assert((a + b).drop_first() =~= a.drop_first() + b);
        assert((a + b)[0] == a[0]);
        assert(encode_utf8(a + b) =~= encode_utf8(a) + encode_utf8(b));
    }
}

proof fn lemma_chunk_payloads(
    req_id: i32,
    is_header_end: bool,
    is_stream_end: bool,
    line: Seq<char>,
    n: int,
)
    requires
        encode_utf8(line).len() >= HEADER_CHUNK_SIZE,
        0 <= n <= chunk_count(line),
    ensures
        ({
            let frames = header_frames(req_id, is_header_end, is_stream_end, line);
            let upto = if n * HEADER_CHUNK_SIZE < line.len() {
                n * HEADER_CHUNK_SIZE
            } else {
                line.len() as int
            };
            payloads(frames.take(n)) == encode_utf8(line.take(upto))
        }),
    decreases n,
{
    let frames = header_frames(req_id, is_header_end, is_stream_end, line);
    if n == 0 {
        assert(frames.take(0) =~= Seq::empty());
        assert(line.take(0) =~= Seq::empty());
        assert(encode_utf8(line.take(0)) =~= Seq::empty());
    } else {
        lemma_chunk_payloads(req_id, is_header_end, is_stream_end, line, n - 1);
        let t = frames.take(n);
        assert(t.drop_last() =~= frames.take(n - 1));
        let c = chunk(line, n - 1);
        assert(t.last() == frames[n - 1]);
        assert(frames[n - 1].skip(HEADER_LEN_IN_BYTES as int) =~= encode_utf8(c));
        let before = (n - 1) * HEADER_CHUNK_SIZE;
        assert(before < line.len());
        lemma_encode_concat(line.take(before), c);
        let upto = if n * HEADER_CHUNK_SIZE < line.len() {
            n * HEADER_CHUNK_SIZE
        } else {
            line.len() as int
        };
        assert(line.take(before) + c =~= line.take(upto));
    }
}

/// However a header text is cut, the payloads of its frames are the text, and of the frames of
/// a text that had to be cut the last and no other ends the headers.
pub proof fn law_header_frames(
    req_id: i32,
    is_header_end: bool,
    is_stream_end: bool,
    line: Seq<char>,
)
    ensures
        payloads(header_frames(req_id, is_header_end, is_stream_end, line)) == encode_utf8(line),
        encode_utf8(line).len() >= HEADER_CHUNK_SIZE ==> {
            let frames = header_frames(req_id, is_header_end, is_stream_end, line);
            forall|i: int|
                0 <= i < frames.len() ==> ends_header((#[trigger] frames[i])[1]) == (i
                    == frames.len() - 1)
        },
{
    let frames = header_frames(req_id, is_header_end, is_stream_end, line);
    if encode_utf8(line).len() < HEADER_CHUNK_SIZE {
        assert(frames.drop_last() =~= Seq::empty());
        assert(payloads(frames.drop_last()) == Seq::<u8>::empty());
        assert(frames.last().skip(HEADER_LEN_IN_BYTES as int) =~= encode_utf8(line));
        assert(payloads(frames) =~= encode_utf8(line));
    } else {
        lemma_chunk_payloads(
            req_id,
            is_header_end,
            is_stream_end,
            line,
            chunk_count(line),
        );
        assert(frames.take(frames.len() as int) =~= frames);
        assert(line.take(line.len() as int) =~= line);
        assert(chunk_count(line) * HEADER_CHUNK_SIZE >= line.len());
    }
}

} // verus!
