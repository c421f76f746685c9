//! The `Forwarded` header: what it says, how it is read and how it is written.

use crate::exceptions::{CrankerRouterException, CrexKind, ExceptionView};
use crate::linked_map::{linked_insert, linked_is_empty, linked_list, linked_new};
use crate::text;
use hashlink::LinkedHashMap;
use vstd::prelude::*;

verus! {

/// One element of a `Forwarded` header: one proxy that the request went through.
pub struct ForwardedHeader {
    pub by: Option<String>,
    pub for_value: Option<String>,
    pub host: Option<String>,
    pub proto: Option<String>,
    pub extensions: Option<LinkedHashMap<String, String>>,
}

/// What a [`ForwardedHeader`] says. A header without extensions has no pairs.
#[verifier::ext_equal]
pub struct ForwardedView {
    pub by: Option<Seq<char>>,
    pub for_value: Option<Seq<char>>,
    pub host: Option<Seq<char>>,
    pub proto: Option<Seq<char>>,
    pub extensions: Seq<(Seq<char>, Seq<char>)>,
}

/// The text of an optional string.
pub open spec fn opt_text(s: Option<String>) -> Option<Seq<char>> {
    match s {
        Some(s) => Some(s@),
        None => None,
    }
}

impl View for ForwardedHeader {
    type V = ForwardedView;

    open spec fn view(&self) -> ForwardedView {
        ForwardedView {
            by: opt_text(self.by),
            for_value: opt_text(self.for_value),
            host: opt_text(self.host),
            proto: opt_text(self.proto),
            extensions: match self.extensions {
                Some(m) => crate::linked_map::linked_pairs(m),
                None => Seq::empty(),
            },
        }
    }
}

/// What each header of a sequence says.
pub open spec fn forwarded_views(v: Seq<ForwardedHeader>) -> Seq<ForwardedView> {
    v.map_values(|h: ForwardedHeader| h@)
}

/// Whether a header holds a map of extensions only if it has some.
pub open spec fn no_empty_map(h: ForwardedHeader) -> bool {
    h.extensions is None <==> h@.extensions.len() == 0
}

/// Whether `c` may stand in a token.
pub open spec fn t_char(c: char) -> bool {
    ||| 'a' <= c <= 'z'
    ||| 'A' <= c <= 'Z'
    ||| '0' <= c <= '9'
    ||| c == '!' || c == '#' || c == '$' || c == '%' || c == '&' || c == '\'' || c == '*'
    ||| c == '+' || c == '-' || c == '.' || c == '^' || c == '_' || c == '`' || c == '|'
    ||| c == '~'
}

/// Whether `c` is white space that a sender may put in.
pub open spec fn ows(c: char) -> bool {
    c == ' ' || c == '\t'
}

/// Whether `c` is a visible ASCII character.
pub open spec fn v_char(c: char) -> bool {
    0x21 <= c as u32 <= 0x7E
}

pub fn is_t_char(c: char) -> (r: bool)
    ensures
        r == t_char(c),
{
    (c >= 'a' && c <= 'z') || (c >= 'A' && c <= 'Z') || (c >= '0' && c <= '9') || c == '!' || c
        == '#' || c == '$' || c == '%' || c == '&' || c == '\'' || c == '*' || c == '+' || c == '-'
        || c == '.' || c == '^' || c == '_' || c == '`' || c == '|' || c == '~'
}

pub fn is_ows(c: char) -> (r: bool)
    ensures
        r == ows(c),
{
    c == ' ' || c == '\t'
}

pub fn is_v_char(c: char) -> (r: bool)
    ensures
        r == v_char(c),
{
    (c as u32) >= 0x21 && (c as u32) <= 0x7E
}

/// An element while it is read: the name of the parameter whose value is being read, if the
/// reader stands in a value, what of that value or of the next name has been read, whether a
/// quote is open, and the parameters that are complete.
#[verifier::ext_equal]
pub struct ElementView {
    pub param_name: Option<Seq<char>>,
    pub buffer: Seq<char>,
    pub quoted: bool,
    pub header: ForwardedView,
}

impl ForwardedView {
    /// A header that says nothing.
    pub open spec fn empty() -> ForwardedView {
        ForwardedView {
            by: None,
            for_value: None,
            host: None,
            proto: None,
            extensions: Seq::empty(),
        }
    }

    /// The header with one more parameter. The last of several with one name counts.
    pub open spec fn with_param(self, name: Seq<char>, value: Seq<char>) -> ForwardedView {
        let name = text::lower(name);
        if name == "by"@ {
            ForwardedView { by: Some(value), ..self }
        } else if name == "for"@ {
            ForwardedView { for_value: Some(value), ..self }
        } else if name == "host"@ {
            ForwardedView { host: Some(value), ..self }
        } else if name == "proto"@ {
            ForwardedView { proto: Some(value), ..self }
        } else {
            ForwardedView {
                extensions: crate::linked_map::set_at_back(self.extensions, name, value),
                ..self
            }
        }
    }
}

impl ElementView {
    /// The element of which nothing has been read.
    pub open spec fn start() -> ElementView {
        ElementView {
            param_name: None,
            buffer: Seq::empty(),
            quoted: false,
            header: ForwardedView::empty(),
        }
    }
}

/// An error of the reader.
pub open spec fn parser_error(reason: Seq<char>) -> ExceptionView {
    ExceptionView::of(reason).with_err_kind(CrexKind::ForwardedHeaderParserError_0008)
}

/// The element after one character in a parameter's name, and whether it ended there.
pub open spec fn step_in_name(e: ElementView, c: char) -> Result<
    (ElementView, bool),
    ExceptionView,
> {
    if c == ',' && e.buffer.len() == 0 {
        Ok((e, true))
    } else if c == '=' {
        Ok((ElementView { param_name: Some(e.buffer), buffer: Seq::empty(), ..e }, false))
    } else if t_char(c) {
        Ok((ElementView { buffer: e.buffer.push(c), ..e }, false))
    } else if ows(c) {
        if e.buffer.len() > 0 {
            Err(
                parser_error(
                    "Got whitespace in parameter name while in ParamName - header was "@
                        + e.buffer,
                ),
            )
        } else {
            Ok((e, false))
        }
    } else {
        Err(parser_error("Got ascii "@ + text::decimal_int(c as int) + " while in ParamName"@))
    }
}

/// The element after one character inside a quote, where `last` is the character before it.
/// A backslash is left out, and what stands behind one is taken as it is.
pub open spec fn step_in_quote(e: ElementView, last: char, c: char) -> ElementView {
    if c == '\\' {
        e
    } else if last != '\\' && c == '"' {
        ElementView { quoted: false, ..e }
    } else {
        ElementView { buffer: e.buffer.push(c), ..e }
    }
}

/// The element after one character in a parameter's value, outside quotes, and whether it
/// ended there.
pub open spec fn step_in_value(e: ElementView, c: char) -> Result<
    (ElementView, bool),
    ExceptionView,
> {
    if e.buffer.len() == 0 && ows(c) {
        Ok((e, false))
    } else if e.buffer.len() == 0 && c == '"' {
        Ok((ElementView { quoted: true, ..e }, false))
    } else if c == ';' {
        Ok(
            (
                ElementView {
                    param_name: None,
                    buffer: Seq::empty(),
                    header: e.header.with_param(e.param_name->0, e.buffer),
                    ..e
                },
                false,
            ),
        )
    } else if c == ',' {
        Ok((e, true))
    } else if v_char(c) {
        Ok((ElementView { buffer: e.buffer.push(c), ..e }, false))
    } else if ows(c) {
        Ok((e, false))
    } else {
        Err(
            parser_error(
                "Got character code "@ + text::decimal_int(c as int) + " ("@ + seq![c]
                    + ") while parsing param value"@,
            ),
        )
    }
}

/// The element after one character, and whether it ended there.
pub open spec fn step(e: ElementView, last: char, c: char) -> Result<
    (ElementView, bool),
    ExceptionView,
> {
    if e.param_name is None {
        step_in_name(e, c)
    } else if e.quoted {
        Ok((step_in_quote(e, last, c), false))
    } else {
        step_in_value(e, c)
    }
}

/// What an element says that ends here. It may not end in a name.
pub open spec fn finish(e: ElementView, input: Seq<char>) -> Result<ForwardedView, ExceptionView> {
    match e.param_name {
        Some(name) => Ok(e.header.with_param(name, e.buffer)),
        None => if e.buffer.len() > 0 {
            Err(parser_error("Unexpected ending point at state ParamName for "@ + input))
        } else {
            Ok(e.header)
        },
    }
}

/// What a reader that stands at the `i`th character goes on to read, after the elements
/// `done`; `open` is the element that it is in the middle of.
pub open spec fn read_from(
    input: Seq<char>,
    i: int,
    open: Option<ElementView>,
    done: Seq<ForwardedView>,
) -> Result<Seq<ForwardedView>, ExceptionView>
    decreases input.len() - i,
{
    if i >= input.len() {
        match open {
            None => Ok(done),
            Some(e) => match finish(e, input) {
                Ok(h) => Ok(done.push(h)),
                Err(ex) => Err(ex),
            },
        }
    } else {
        let e = match open {
            None => ElementView::start(),
            Some(e) => e,
        };
        let last = if i > 0 {
            input[i - 1]
        } else {
            ' '
        };
        match step(e, last, input[i]) {
            Err(ex) => Err(ex),
            Ok((e2, false)) => read_from(input, i + 1, Some(e2), done),
            Ok((e2, true)) => match finish(e2, input) {
                Err(ex) => Err(ex),
                Ok(h) => read_from(input, i + 1, None, done.push(h)),
            },
        }
    }
}

/// The elements that a `Forwarded` header's value holds.
pub open spec fn parsed(input: Seq<char>) -> Result<Seq<ForwardedView>, ExceptionView> {
    if text::trim(input).len() == 0 {
        Ok(Seq::empty())
    } else {
        read_from(input, 0, None, Seq::empty())
    }
}

/// An element while it is read.
struct ElementParser {
    param_name: Option<String>,
    buffer: String,
    buffer_len: usize,
    quoted: bool,
    by: Option<String>,
    for_value: Option<String>,
    host: Option<String>,
    proto: Option<String>,
    extensions: LinkedHashMap<String, String>,
}

impl ElementParser {
    spec fn headed(&self) -> ForwardedView {
        ForwardedView {
            by: opt_text(self.by),
            for_value: opt_text(self.for_value),
            host: opt_text(self.host),
            proto: opt_text(self.proto),
            extensions: crate::linked_map::linked_pairs(self.extensions),
        }
    }

    spec fn now(&self) -> ElementView {
        ElementView {
            param_name: opt_text(self.param_name),
            buffer: self.buffer@,
            quoted: self.quoted,
            header: self.headed(),
        }
    }

    spec fn wf(&self) -> bool {
        self.buffer_len == self.buffer@.len()
    }

    fn start() -> (r: Self)
        ensures
            r.wf(),
            r.now() == ElementView::start(),
    {
        let r = ElementParser {
            param_name: None,
            buffer: String::new(),
            buffer_len: 0,
            quoted: false,
            by: None,
            for_value: None,
            host: None,
            proto: None,
            extensions: linked_new(),
        };
        assert(r.now() =~= ElementView::start());
        r
    }

    fn clear(&mut self)
        ensures
            final(self).wf(),
            final(self).now() == (ElementView { buffer: Seq::empty(), ..old(self).now() }),
            final(self).buffer_len == 0,
    {
        self.buffer = String::new();
        self.buffer_len = 0;
        assert(self.now() =~= (ElementView { buffer: Seq::empty(), ..old(self).now() }));
    }

    fn take(&mut self, c: char)
        requires
            old(self).wf(),
            old(self).buffer_len < usize::MAX,
        ensures
            final(self).wf(),
            final(self).now() == (ElementView {
                buffer: old(self).now().buffer.push(c),
                ..old(self).now()
            }),
            final(self).buffer_len == old(self).buffer_len + 1,
    {
        self.buffer.push(c);
        self.buffer_len = self.buffer_len + 1;
        assert(self.now() =~= (ElementView {
            buffer: old(self).now().buffer.push(c),
            ..old(self).now()
        }));
    }

    fn store(&mut self, name: &str)
        requires
            old(self).wf(),
        ensures
            final(self).wf(),
            final(self).buffer_len == old(self).buffer_len,
            final(self).now() == (ElementView {
                header: old(self).now().header.with_param(name@, old(self).buffer@),
                ..old(self).now()
            }),
    {
        let lower_name = text::lowered(name);
        let val = self.buffer.clone();
        if text::str_eq(lower_name.as_str(), "by") {
            self.by = Some(val);
        } else if text::str_eq(lower_name.as_str(), "for") {
            self.for_value = Some(val);
        } else if text::str_eq(lower_name.as_str(), "host") {
            self.host = Some(val);
        } else if text::str_eq(lower_name.as_str(), "proto") {
            self.proto = Some(val);
        } else {
            linked_insert(&mut self.extensions, lower_name, val);
        }
        assert(self.now() =~= (ElementView {
            header: old(self).now().header.with_param(name@, old(self).buffer@),
            ..old(self).now()
        }));
    }

    fn feed_name(&mut self, c: char) -> (r: Result<bool, CrankerRouterException>)
        requires
            old(self).wf(),
            old(self).param_name is None,
            old(self).buffer_len < usize::MAX,
        ensures
            final(self).wf(),
            final(self).buffer_len <= old(self).buffer_len + 1,
            match step_in_name(old(self).now(), c) {
                Ok((e, ended)) => r == Ok::<bool, CrankerRouterException>(ended)
                    && final(self).now() == e,
                Err(ex) => r matches Err(e) && e@ == ex,
            },
    {
        if c == ',' && self.buffer_len == 0 {
            return Ok(true);
        }
        if c == '=' {
            self.param_name = Some(self.buffer.clone());
            self.clear();
        } else if is_t_char(c) {
            self.take(c);
        } else if is_ows(c) {
            if self.buffer_len > 0 {
                let reason = text::concat(
                    "Got whitespace in parameter name while in ParamName - header was ",
                    self.buffer.as_str(),
                );
                return Err(
                    CrankerRouterException::new(reason).with_err_kind(
                        CrexKind::ForwardedHeaderParserError_0008,
                    ),
                );
            }
        } else {
            let mut reason = text::concat("Got ascii ", text::int_text((c as u32) as i64).as_str());
            reason.push_str(" while in ParamName");
            return Err(
                CrankerRouterException::new(reason).with_err_kind(
                    CrexKind::ForwardedHeaderParserError_0008,
                ),
            );
        }
        Ok(false)
    }

    fn feed_quote(&mut self, last: char, c: char)
        requires
            old(self).wf(),
            old(self).buffer_len < usize::MAX,
        ensures
            final(self).wf(),
            final(self).buffer_len <= old(self).buffer_len + 1,
            final(self).now() == step_in_quote(old(self).now(), last, c),
    {
        if c == '\\' {
            // don't append
        } else if last == '\\' {
            self.take(c);
        } else if c == '"' {
            // this is the end of the quote
            self.quoted = false;
            assert(self.now() =~= step_in_quote(old(self).now(), last, c));
        } else {
            self.take(c);
        }
    }

    fn feed_value(&mut self, c: char) -> (r: Result<bool, CrankerRouterException>)
        requires
            old(self).wf(),
            old(self).param_name is Some,
            old(self).buffer_len < usize::MAX,
        ensures
            final(self).wf(),
            final(self).buffer_len <= old(self).buffer_len + 1,
            match step_in_value(old(self).now(), c) {
                Ok((e, ended)) => r == Ok::<bool, CrankerRouterException>(ended)
                    && final(self).now() == e,
                Err(ex) => r matches Err(e) && e@ == ex,
            },
    {
        let is_first = self.buffer_len == 0;
        if is_first && is_ows(c) {
            // ignore it
        } else if is_first && c == '"' {
            self.quoted = true;
            assert(self.now() =~= (ElementView { quoted: true, ..old(self).now() }));
        } else if c == ';' {
            if let Some(name) = self.param_name.take() {
                self.store(name.as_str());
            }
            self.clear();
            assert(self.now() =~= step_in_value(old(self).now(), c)->Ok_0.0);
        } else if c == ',' {
            return Ok(true);
        } else if is_v_char(c) {
            self.take(c);
        } else if is_ows(c) {
            // ignore it
        } else {
            let mut reason = text::concat(
                "Got character code ",
                text::int_text((c as u32) as i64).as_str(),
            );
            reason.push_str(" (");
            reason.push(c);
            reason.push_str(") while parsing param value");
            assert(reason@ =~= "Got character code "@ + text::decimal_int(c as int) + " ("@
                + seq![c] + ") while parsing param value"@);
            return Err(
                CrankerRouterException::new(reason).with_err_kind(
                    CrexKind::ForwardedHeaderParserError_0008,
                ),
            );
        }
        Ok(false)
    }

    fn finish(self, input: &str) -> (r: Result<ForwardedHeader, CrankerRouterException>)
        requires
            self.wf(),
        ensures
            match finish(self.now(), input@) {
                Ok(h) => r matches Ok(x) && x@ == h && no_empty_map(x),
                Err(ex) => r matches Err(e) && e@ == ex,
            },
    {
        let mut e = self;
        match e.param_name.take() {
            Some(name) => {
                e.store(name.as_str());
            },
            None => {
                if e.buffer_len > 0 {
                    let reason = text::concat(
                        "Unexpected ending point at state ParamName for ",
                        input,
                    );
                    return Err(
                        CrankerRouterException::new(reason).with_err_kind(
                            CrexKind::ForwardedHeaderParserError_0008,
                        ),
                    );
                }
            },
        }
        let ghost pairs = crate::linked_map::linked_pairs(e.extensions);
        let extensions = if linked_is_empty(&e.extensions) {
            assert(pairs =~= Seq::empty());
            None
        } else {
            Some(e.extensions)
        };
        Ok(
            ForwardedHeader {
                by: e.by,
                for_value: e.for_value,
                host: e.host,
                proto: e.proto,
                extensions,
            },
        )
    }
}

impl ForwardedHeader {
    /// Reads the value of a `Forwarded` header.
    pub fn from_string(input: &str) -> (r: Result<Vec<ForwardedHeader>, CrankerRouterException>)
        ensures
            match parsed(input@) {
                Ok(hs) => r matches Ok(v) && forwarded_views(v@) == hs,
                Err(ex) => r matches Err(e) && e@ == ex,
            },
            r matches Ok(v) ==> forall|i: int| 0 <= i < v@.len() ==> no_empty_map(#[trigger] v@[i]),
    {
        let mut results: Vec<ForwardedHeader> = Vec::new();
        assert(forwarded_views(results@) =~= Seq::empty());
        if text::chars_of(text::trimmed(input).as_str()).len() == 0 {
            return Ok(results);
        }
        let input_chars = text::chars_of(input);
        let mut open: Option<ElementParser> = None;
        let mut i: usize = 0;
        while i < input_chars.len()
            invariant
                input_chars@ == input@,
                i <= input_chars.len(),
                open matches Some(p) ==> p.wf() && p.buffer_len <= i,
                forall|j: int| 0 <= j < results@.len() ==> no_empty_map(#[trigger] results@[j]),
                parsed(input@) == read_from(
                    input@,
                    i as int,
                    match open {
                        Some(p) => Some(p.now()),
                        None => None,
                    },
                    forwarded_views(results@),
                ),
            decreases input_chars.len() - i,
        {
            let c = input_chars[i];
            let last = if i > 0 {
                input_chars[i - 1]
            } else {
                ' '
            };
            let mut p = match open {
                Some(p) => p,
                None => ElementParser::start(),
            };
            let ended = if p.param_name.is_none() {
                match p.feed_name(c) {
                    Ok(b) => b,
                    Err(e) => {
                        return Err(e);
                    },
                }
            } else if p.quoted {
                p.feed_quote(last, c);
                false
            } else {
                match p.feed_value(c) {
                    Ok(b) => b,
                    Err(e) => {
                        return Err(e);
                    },
                }
            };
            if ended {
                match p.finish(input) {
                    Ok(h) => {
                        let ghost before = results@;
                        results.push(h);
                        assert(forwarded_views(results@) =~= forwarded_views(before).push(h@));
                    },
                    Err(e) => {
                        return Err(e);
                    },
                }
                open = None;
            } else {
                open = Some(p);
            }
            i = i + 1;
        }
        if let Some(p) = open {
            match p.finish(input) {
                Ok(h) => {
                    let ghost before = results@;
                    results.push(h);
                    assert(forwarded_views(results@) =~= forwarded_views(before).push(h@));
                },
                Err(e) => {
                    return Err(e);
                },
            }
        }
        Ok(results)
    }
}

/// A parameter's value as it is written: in quotes unless it is a token.
pub open spec fn quoted_if_needed(s: Seq<char>) -> Seq<char> {
    if forall|i: int| 0 <= i < s.len() ==> t_char(#[trigger] s[i]) {
        s
    } else {
        "\""@ + escaped(s) + "\""@
    }
}

/// `s` with a backslash in front of each double quote.
pub open spec fn escaped(s: Seq<char>) -> Seq<char>
    decreases s.len(),
{
    if s.len() == 0 {
        Seq::empty()
    } else if s.last() == '"' {
        escaped(s.drop_last()) + seq!['\\', '"']
    } else {
        escaped(s.drop_last()).push(s.last())
    }
}

pub fn quote_if_needed(s: &str) -> (r: String)
    ensures
        r@ == quoted_if_needed(s@),
{
    let mut is_token = true;
    let mut res = String::new();
    res.push('"');
    proof {
        reveal_strlit("\"");
        assert("\""@ =~= seq!['"']);
        assert(res@ =~= "\""@ + escaped(s@.take(0)));
    }
    for c in it: s.chars()
        invariant
            it.seq() == s@,
            is_token == forall|i: int| 0 <= i < it.index() ==> t_char(#[trigger] s@[i]),
            res@ == "\""@ + escaped(s@.take(it.index() as int)),
    {
        let ghost before = res@;
        if !is_t_char(c) {
            is_token = false;
            assert(!t_char(s@[it.index() as int]));
        }
        if c == '"' {
            res.push('\\');
        }
        res.push(c);
        proof {
            let t = s@.take(it.index() + 1);
            assert(t.drop_last() =~= s@.take(it.index() as int));
            assert(t.last() == c);
            assert(res@ =~= "\""@ + escaped(t));
        }
    }
    assert(s@.take(s@.len() as int) =~= s@);
    if is_token {
        s.to_string()
    } else {
        res.push('"');
        assert(res@ =~= "\""@ + escaped(s@) + "\""@) by {
            reveal_strlit("\"");
        }
        res
    }
}

/// A header's text with one more parameter, if it has a value.
pub open spec fn with_written(sb: Seq<char>, k: Seq<char>, v: Option<Seq<char>>) -> Seq<char> {
    match v {
        None => sb,
        Some(v) => {
            let sep = if sb.len() == 0 {
                Seq::<char>::empty()
            } else {
                seq![';']
            };
            sb + sep + k + seq!['='] + quoted_if_needed(v)
        },
    }
}

/// A header's text with its extensions.
pub open spec fn with_extensions(sb: Seq<char>, pairs: Seq<(Seq<char>, Seq<char>)>) -> Seq<char>
    decreases pairs.len(),
{
    if pairs.len() == 0 {
        sb
    } else {
        with_written(
            with_extensions(sb, pairs.drop_last()),
            pairs.last().0,
            Some(pairs.last().1),
        )
    }
}

/// A header as it is written.
pub open spec fn written(h: ForwardedView) -> Seq<char> {
    let sb = with_written(Seq::empty(), "by"@, h.by);
    let sb = with_written(sb, "for"@, h.for_value);
    let sb = with_written(sb, "host"@, h.host);
    let sb = with_written(sb, "proto"@, h.proto);
    with_extensions(sb, h.extensions)
}

pub fn append_string_for_forwarded_header(sb: &mut String, k: &str, v: Option<&String>)
    ensures
        final(sb)@ == with_written(
            old(sb)@,
            k@,
            match v {
                Some(v) => Some(v@),
                None => None,
            },
        ),
{
    if let Some(v) = v {
        if text::chars_of(sb.as_str()).len() > 0 {
            sb.push(';');
        }
        sb.push_str(k);
        sb.push('=');
        sb.push_str(quote_if_needed(v.as_str()).as_str());
        assert(sb@ =~= with_written(old(sb)@, k@, Some(v@)));
    }
}

impl ForwardedHeader {
    /// The header as it is written.
    pub fn to_string(&self) -> (r: String)
        ensures
            r@ == written(self@),
    {
        let mut sb = String::new();
        append_string_for_forwarded_header(&mut sb, "by", self.by.as_ref());
        append_string_for_forwarded_header(&mut sb, "for", self.for_value.as_ref());
        append_string_for_forwarded_header(&mut sb, "host", self.host.as_ref());
        append_string_for_forwarded_header(&mut sb, "proto", self.proto.as_ref());
        if let Some(m) = &self.extensions {
            let ghost fixed = sb@;
            let ghost pairs = crate::linked_map::linked_pairs(*m);
            let list = linked_list(m);
            let mut i: usize = 0;
            assert(pairs.take(0) =~= Seq::empty());
            while i < list.len()
                invariant
                    i <= list.len(),
                    list@.len() == pairs.len(),
                    forall|j: int|
                        0 <= j < list@.len() ==> (#[trigger] list@[j]).0@ == pairs[j].0
                            && list@[j].1@ == pairs[j].1,
                    sb@ == with_extensions(fixed, pairs.take(i as int)),
                decreases list.len() - i,
            {
                append_string_for_forwarded_header(&mut sb, list[i].0.as_str(), Some(list[i].1));
                proof {
                    let t = pairs.take(i + 1);
                    assert(t.drop_last() =~= pairs.take(i as int));
                    assert(t.last() == pairs[i as int]);
                }
                i = i + 1;
            }
            assert(pairs.take(pairs.len() as int) =~= pairs);
        }
        sb
    }
}

} // verus!
