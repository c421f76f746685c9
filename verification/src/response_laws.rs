//! What holds of the response to the client, whatever the target's response holds.

use crate::cranker_protocol_response::{
    all_colons, builder_head, line_key, line_value, nonempty, response_head, response_of,
    CrankerProtocolResponse,
};
use crate::exceptions::CrankerRouterException;
use crate::headers::{has_name, is_name, text_value, values_of};
use crate::http_laws::{lemma_appended_value, lemma_other_name};
use crate::text;
use crate::text_laws::{
    is_blank, is_tight, law_joined_is_split, law_number_is_read_back,
    law_pieces_make_up_the_text, law_split_at_first, law_split_of_one_piece, law_trim,
};
use axum::http::response::Builder;
use vstd::prelude::*;
use vstd::utf8::encode_utf8;

verus! {

/// A header as a target gives it: a name and a value, and the white space around them.
pub struct GivenHeader {
    pub indent: Seq<char>,
    pub name: Seq<char>,
    pub behind_name: Seq<char>,
    pub before_value: Seq<char>,
    pub value: Seq<char>,
    pub behind_value: Seq<char>,
}

impl GivenHeader {
    /// The line that gives the header.
    pub open spec fn line(self) -> Seq<char> {
        (self.indent + self.name + self.behind_name) + seq![':'] + (self.before_value + self.value
            + self.behind_value)
    }

    /// Whether the parts are what they are called. The value may hold colons.
    pub open spec fn wf(self) -> bool {
        &&& is_blank(self.indent)
        &&& is_blank(self.behind_name)
        &&& is_blank(self.before_value)
        &&& is_blank(self.behind_value)
        &&& is_tight(self.name)
        &&& is_tight(self.value)
        &&& !self.name.contains(':')
        &&& is_name(text::lower(self.name))
        &&& text_value(self.value) is Some
    }
}

/// The lines that give the headers.
pub open spec fn lines_of(hs: Seq<GivenHeader>) -> Seq<Seq<char>> {
    hs.map_values(|h: GivenHeader| h.line())
}

/// The values that are given under a name, in order.
pub open spec fn given_values(hs: Seq<GivenHeader>, name: Seq<char>) -> Seq<Seq<u8>>
    decreases hs.len(),
{
    if hs.len() == 0 {
        Seq::empty()
    } else if text::lower(hs.last().name) == name {
        given_values(hs.drop_last(), name).push(encode_utf8(hs.last().value))
    } else {
        given_values(hs.drop_last(), name)
    }
}

/// Whether a header is for the connection between target and connector only, or names the target's
/// server.
pub open spec fn stays_behind(name: Seq<char>) -> bool {
    seq![
        "keep-alive"@,
        "transfer-encoding"@,
        "te"@,
        "connection"@,
        "trailer"@,
        "upgrade"@,
        "proxy-authorization"@,
        "proxy-authenticate"@,
        "server"@,
    ].contains(name)
}

proof fn lemma_stays_behind(name: Seq<char>)
    ensures
        stays_behind(name) <==> crate::config::is_hop_by_hop(name)
            || crate::config::is_not_sent_back(name),
{
    let all = seq![
        "keep-alive"@,
        "transfer-encoding"@,
        "te"@,
        "connection"@,
        "trailer"@,
        "upgrade"@,
        "proxy-authorization"@,
        "proxy-authenticate"@,
        "server"@,
    ];
    assert(all[0] == "keep-alive"@ && all[1] == "transfer-encoding"@ && all[2] == "te"@ && all[3]
        == "connection"@ && all[4] == "trailer"@ && all[5] == "upgrade"@ && all[6]
        == "proxy-authorization"@ && all[7] == "proxy-authenticate"@ && all[8] == "server"@);
}

/// The line of a header is taken apart into the name and the value, whole, at the first colon.
pub proof fn law_line_is_taken_apart(h: GivenHeader)
    requires
        h.wf(),
    ensures
        h.line().contains(':'),
        line_key(h.line()) == h.name,
        line_value(h.line()) == h.value,
{
    let front = h.indent + h.name + h.behind_name;
    let back = h.before_value + h.value + h.behind_value;
    let line = h.line();
    let n = front.len() as int;
    assert(line[n] == ':');
    assert forall|i: int| 0 <= i < n implies line[i] != ':' by {
        assert(line[i] == front[i]);
        if i < h.indent.len() {
            assert(is_white_space_not_colon(h.indent[i]));
        } else if i < h.indent.len() + h.name.len() {
            assert(h.name[i - h.indent.len()] == line[i]);
            if line[i] == ':' {
                assert(h.name.contains(':'));
            }
        } else {
            let j = i - h.indent.len() - h.name.len();
            assert(line[i] == h.behind_name[j]);
            assert(is_white_space_not_colon(h.behind_name[j]));
        }
    }
    assert(line.contains(':'));
    line.index_of_first_ensures(':');
    assert(line.index_of_first(':') == Some(n));
    assert(line.take(n) =~= front);
    assert(line.skip(n + 1) =~= back);
    law_trim(h.indent, h.name, h.behind_name);
    law_trim(h.before_value, h.value, h.behind_value);
}

spec fn is_white_space_not_colon(c: char) -> bool {
    text::is_white_space(c) && c != ':'
}

/// Each header of the target's response that is not for the connection only reaches the client
/// with all its values, whole and in the order of the lines; the others do not reach it, and
/// nothing is added.
pub proof fn law_response_has_the_headers(status: u16, hs: Seq<GivenHeader>, name: Seq<char>)
    requires
        100 <= status <= 999,
        forall|i: int| 0 <= i < hs.len() ==> (#[trigger] hs[i]).wf(),
    ensures
        all_colons(lines_of(hs)),
        response_head(status, lines_of(hs)) matches Some((code, es)) && code == status
            && values_of(es, name) == (if stays_behind(name) {
            Seq::empty()
        } else {
            given_values(hs, name)
        }) && has_name(es, name) == (values_of(es, name).len() > 0),
    decreases hs.len(),
{
    let lines = lines_of(hs);
    assert forall|i: int| 0 <= i < lines.len() implies (#[trigger] lines[i]).contains(':') by {
        law_line_is_taken_apart(hs[i]);
    }
    if hs.len() > 0 {
        let front = hs.drop_last();
        assert forall|i: int| 0 <= i < front.len() implies (#[trigger] front[i]).wf() by {
            assert(front[i] == hs[i]);
        }
        law_response_has_the_headers(status, front, name);
        assert(lines.drop_last() =~= lines_of(front));
        let h = hs.last();
        assert(hs[hs.len() - 1].wf());
        law_line_is_taken_apart(h);
        let es = (response_head(status, lines_of(front))->0).1;
        let key = text::lower(h.name);
        lemma_stays_behind(key);
        lemma_stays_behind(name);
        let bytes = encode_utf8(h.value);
        if key == name {
            lemma_appended_value(es, key, bytes);
        } else {
            lemma_other_name(es, key, bytes, name);
        }
    } else {
        assert(lines =~= Seq::empty());
    }
}

/// The head of a target's response: the status is the second word of the first line, and each
/// further line that holds something is a header line, the last line first.
pub proof fn law_message_is_taken_apart(
    version: Seq<char>,
    status: u16,
    phrase: Seq<char>,
    lines: Seq<Seq<char>>,
)
    requires
        !version.contains(' '),
        !version.contains('\n'),
        !phrase.contains('\n'),
        forall|i: int| 0 <= i < lines.len() ==> !(#[trigger] lines[i]).contains('\n'),
    ensures
        ({
            let first = version + seq![' '] + text::decimal(status as nat) + seq![' '] + phrase;
            let message = text::join(seq![first] + lines, seq!['\n']);
            response_of(message) == Ok::<_, crate::exceptions::ExceptionView>(
                (status, nonempty(lines.reverse())),
            )
        }),
{
    let code = text::decimal(status as nat);
    let first = version + seq![' '] + code + seq![' '] + phrase;
    let all = seq![first] + lines;
    law_number_is_read_back(status as nat, u16::MAX as nat);
    assert(!code.contains(' ') && !code.contains('\n')) by {
        if code.contains(' ') {
            let i = choose|i: int| 0 <= i < code.len() && code[i] == ' ';
            assert(text::is_digit(code[i]));
        }
        if code.contains('\n') {
            let i = choose|i: int| 0 <= i < code.len() && code[i] == '\n';
            assert(text::is_digit(code[i]));
        }
    }
    assert(!first.contains('\n')) by {
        if first.contains('\n') {
            let i = choose|i: int| 0 <= i < first.len() && first[i] == '\n';
            let a = version.len() as int;
            let b = a + 1 + code.len();
            if i < a {
                assert(version[i] == '\n');
            } else if a < i < b {
                assert(code[i - a - 1] == '\n');
            } else if i > b {
                assert(phrase[i - b - 1] == '\n');
            }
        }
    }
    assert forall|i: int| 0 <= i < all.len() implies !(#[trigger] all[i]).contains('\n') by {
        if i > 0 {
            assert(all[i] == lines[i - 1]);
        }
    }
    law_joined_is_split(all, '\n');
    assert(all[0] == first);
    assert(all.skip(1) =~= lines);
    let words = code + seq![' '] + phrase;
    assert(first =~= version + seq![' '] + words);
    law_split_at_first(version, ' ', words);
    law_split_at_first(code, ' ', phrase);
    let bits = text::split(first, ' ');
    assert(bits[1] == text::split(words, ' ')[0]);
    assert(bits[1] == code);
}

/// Lines that hold something are all kept, in their order, and empty ones are dropped.
pub proof fn law_lines_are_kept(front: Seq<Seq<char>>, line: Seq<char>)
    ensures
        nonempty(Seq::<Seq<char>>::empty()) == Seq::<Seq<char>>::empty(),
        nonempty(front.push(line)) == (if line.len() > 0 {
            nonempty(front).push(line)
        } else {
            nonempty(front)
        }),
{
    assert(front.push(line).drop_last() =~= front);
}

/// Lines that all hold something are all kept.
pub proof fn lemma_none_empty(lines: Seq<Seq<char>>)
    requires
        forall|i: int| 0 <= i < lines.len() ==> (#[trigger] lines[i]).len() > 0,
    ensures
        nonempty(lines) == lines,
    decreases lines.len(),
{
    if lines.len() > 0 {
        let front = lines.drop_last();
        assert forall|i: int| 0 <= i < front.len() implies (#[trigger] front[i]).len() > 0 by {
            assert(front[i] == lines[i]);
        }
        lemma_none_empty(front);
        assert(lines[lines.len() - 1].len() > 0);
        assert(front.push(lines.last()) =~= lines);
    } else {
        assert(lines =~= Seq::empty());
    }
}

/// The status line of a target's response.
pub open spec fn status_line(version: Seq<char>, status: u16, phrase: Seq<char>) -> Seq<char> {
    version + seq![' '] + text::decimal(status as nat) + seq![' '] + phrase
}

/// From the message of a connector to the response: [`CrankerProtocolResponse::new`] reads the
/// status and the header lines, and [`CrankerProtocolResponse::build`] makes a response with that
/// status in which each header that is not for the connection only has the values that the message
/// gives, whole, from the last line to the first.
pub proof fn law_response_is_what_the_message_says(
    version: Seq<char>,
    status: u16,
    phrase: Seq<char>,
    hs: Seq<GivenHeader>,
    name: Seq<char>,
    message: String,
    parsed: Result<CrankerProtocolResponse, CrankerRouterException>,
    built: Result<Builder, CrankerRouterException>,
)
    requires
        !version.contains(' '),
        !version.contains('\n'),
        !phrase.contains('\n'),
        100 <= status <= 999,
        hs.len() <= 6554,
        forall|i: int| 0 <= i < hs.len() ==> (#[trigger] hs[i]).wf(),
        forall|i: int| 0 <= i < hs.len() ==> !(#[trigger] hs[i]).line().contains('\n'),
        message@ == text::join(
            seq![status_line(version, status, phrase)] + lines_of(hs),
            seq!['\n'],
        ),
        call_ensures(CrankerProtocolResponse::new, (message,), parsed),
        parsed matches Ok(x) ==> call_ensures(CrankerProtocolResponse::build, (&x,), built),
    ensures
        parsed matches Ok(x) && x.status == status && text::texts(x.headers@) == lines_of(
            hs,
        ).reverse(),
        built matches Ok(b) && builder_head(b) matches Some((code, es)) && code == status
            && values_of(es, name) == (if stays_behind(name) {
            Seq::empty()
        } else {
            given_values(hs.reverse(), name)
        }),
{
    let lines = lines_of(hs);
    assert forall|i: int| 0 <= i < lines.len() implies !(#[trigger] lines[i]).contains('\n') by {
        assert(lines[i] == hs[i].line());
    }
    law_message_is_taken_apart(version, status, phrase, lines);
    let back = hs.reverse();
    assert(lines.reverse() =~= lines_of(back));
    assert forall|i: int| 0 <= i < back.len() implies (#[trigger] back[i]).wf() by {
        assert(back[i] == hs[hs.len() - 1 - i]);
    }
    assert forall|i: int| 0 <= i < lines_of(back).len() implies (
    #[trigger] lines_of(back)[i]).len() > 0 by {
        assert(back[i].wf());
    }
    lemma_none_empty(lines_of(back));
    law_response_has_the_headers(status, back, name);
}

/// A response with a header line that has no colon is refused, and so is a message without a
/// status.
pub proof fn law_corrupted_response(
    response: &CrankerProtocolResponse,
    i: int,
    built: Result<Builder, CrankerRouterException>,
    message: String,
    parsed: Result<CrankerProtocolResponse, CrankerRouterException>,
)
    requires
        call_ensures(CrankerProtocolResponse::build, (response,), built),
        call_ensures(CrankerProtocolResponse::new, (message,), parsed),
    ensures
        0 <= i < response.headers@.len() && !response.headers@[i]@.contains(':') ==> built is Err,
        !message@.contains(' ') ==> (parsed matches Err(e) && e@.reason
            == "failed to parse status code from target response ("@ + message@
            + "): no status code found"@),
{
    if 0 <= i < response.headers@.len() {
        assert(text::texts(response.headers@)[i] == response.headers@[i]@);
    }
    if !message@.contains(' ') {
        law_pieces_make_up_the_text(message@, '\n');
        let lines = text::split(message@, '\n');
        let first = lines[0];
        lemma_first_piece(message@, '\n');
        assert(!first.contains(' ')) by {
            if first.contains(' ') {
                let j = choose|j: int| 0 <= j < first.len() && first[j] == ' ';
                assert(message@[j] == ' ');
            }
        }
        law_split_of_one_piece(first, ' ');
    }
}

proof fn lemma_first_piece(s: Seq<char>, sep: char)
    ensures
        text::split(s, sep).len() >= 1,
        text::split(s, sep)[0].is_prefix_of(s),
    decreases s.len(),
{
    if s.len() > 0 {
        lemma_first_piece(s.drop_last(), sep);
        let before = text::split(s.drop_last(), sep);
        let all = text::split(s, sep);
        if before.len() > 1 || s.last() == sep {
            assert(all[0] == before[0]);
            assert(before[0].is_prefix_of(s));
        } else {
            law_pieces_make_up_the_text(s.drop_last(), sep);
            assert(before[0] == s.drop_last());
            assert(all[0] =~= s);
        }
    }
}

} // verus!
