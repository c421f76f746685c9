//! What is written as a `Forwarded` header is read back.

use crate::exceptions::ExceptionView;
use crate::forwarded::{ElementView, ForwardedView};
use crate::forwarded::{
    escaped, finish, parsed, quoted_if_needed, read_from, step, t_char, with_extensions,
    with_written, written,
};
use crate::linked_map::{has_other_key, set_at_back};
use crate::text;
use vstd::prelude::*;

verus! {

/// Whether `s` holds no backslash.
pub open spec fn no_backslash(s: Seq<char>) -> bool {
    forall|i: int| 0 <= i < s.len() ==> #[trigger] s[i] != '\\'
}

/// Whether `s` can be the name of a parameter.
pub open spec fn token(s: Seq<char>) -> bool {
    forall|i: int| 0 <= i < s.len() ==> t_char(#[trigger] s[i])
}

/// The parameters of a header in the order in which they are written.
pub open spec fn params(h: ForwardedView) -> Seq<(Seq<char>, Seq<char>)> {
    opt_param("by"@, h.by) + opt_param("for"@, h.for_value) + opt_param("host"@, h.host)
        + opt_param("proto"@, h.proto) + h.extensions
}

pub open spec fn opt_param(name: Seq<char>, value: Option<Seq<char>>) -> Seq<
    (Seq<char>, Seq<char>),
> {
    match value {
        Some(v) => seq![(name, v)],
        None => Seq::empty(),
    }
}

/// Whether a parameter of this name is an extension under this very name.
pub open spec fn extension_name(name: Seq<char>) -> bool {
    &&& token(name)
    &&& text::lower(name) == name
    &&& name != "by"@
    &&& name != "for"@
    &&& name != "host"@
    &&& name != "proto"@
}

/// Whether a header can be written so that the same is read: it says something, no value holds
/// a backslash, and its extensions have different names that are tokens in small letters and
/// not among the names with a meaning of their own.
pub open spec fn writable(h: ForwardedView) -> bool {
    &&& params(h).len() > 0
    &&& forall|i: int| 0 <= i < params(h).len() ==> no_backslash((#[trigger] params(h)[i]).1)
    &&& forall|i: int|
        0 <= i < h.extensions.len() ==> extension_name((#[trigger] h.extensions[i]).0)
    &&& forall|i: int, j: int|
        0 <= i < j < h.extensions.len() ==> (#[trigger] h.extensions[i]).0 != (
        #[trigger] h.extensions[j]).0
}

proof fn lemma_extensions_split(
    sb: Seq<char>,
    a: Seq<(Seq<char>, Seq<char>)>,
    b: Seq<(Seq<char>, Seq<char>)>,
)
    ensures
        with_extensions(with_extensions(sb, a), b) == with_extensions(sb, a + b),
    decreases b.len(),
{
    if b.len() == 0 {
        assert(a + b =~= a);
    } else {
        lemma_extensions_split(sb, a, b.drop_last());
        assert((a + b).drop_last() =~= a + b.drop_last());
        assert((a + b).last() == b.last());
    }
}

proof fn lemma_one_param(sb: Seq<char>, name: Seq<char>, value: Option<Seq<char>>)
    ensures
        with_written(sb, name, value) == with_extensions(sb, opt_param(name, value)),
{
    if let Some(v) = value {
        let one = seq![(name, v)];
        assert(one.drop_last() =~= Seq::empty());
        assert(with_extensions(sb, one.drop_last()) == sb);
        assert(one.last() == (name, v));
    }
}

/// A header is written as its parameters are, one behind the other.
pub proof fn lemma_written_params(h: ForwardedView)
    ensures
        written(h) == with_extensions(Seq::empty(), params(h)),
{
    let e = Seq::<char>::empty();
    let a = opt_param("by"@, h.by);
    let b = opt_param("for"@, h.for_value);
    let c = opt_param("host"@, h.host);
    let d = opt_param("proto"@, h.proto);
    lemma_one_param(e, "by"@, h.by);
    lemma_one_param(with_extensions(e, a), "for"@, h.for_value);
    lemma_extensions_split(e, a, b);
    lemma_one_param(with_extensions(e, a + b), "host"@, h.host);
    lemma_extensions_split(e, a + b, c);
    lemma_one_param(with_extensions(e, a + b + c), "proto"@, h.proto);
    lemma_extensions_split(e, a + b + c, d);
    lemma_extensions_split(e, a + b + c + d, h.extensions);
}

/// The text in front of the `n`th of the parameters is a prefix of the text of all.
proof fn lemma_extensions_prefix(ps: Seq<(Seq<char>, Seq<char>)>, n: int)
    requires
        0 <= n <= ps.len(),
    ensures
        with_extensions(Seq::empty(), ps.take(n)).is_prefix_of(with_extensions(Seq::empty(), ps)),
    decreases ps.len() - n,
{
    if n == ps.len() {
        assert(ps.take(n) =~= ps);
    } else {
        lemma_extensions_prefix(ps, n + 1);
        let t = ps.take(n + 1);
        assert(t.drop_last() =~= ps.take(n));
        assert(t.last() == ps[n]);
        let a = with_extensions(Seq::empty(), ps.take(n));
        let b = with_extensions(Seq::empty(), t);
        assert(b == with_written(a, ps[n].0, Some(ps[n].1)));
        assert(a.is_prefix_of(b));
    }
}

proof fn lemma_escaped_prefix(v: Seq<char>, n: int)
    requires
        0 <= n <= v.len(),
    ensures
        escaped(v.take(n)).is_prefix_of(escaped(v)),
    decreases v.len() - n,
{
    if n == v.len() {
        assert(v.take(n) =~= v);
    } else {
        lemma_escaped_prefix(v, n + 1);
        let t = v.take(n + 1);
        assert(t.drop_last() =~= v.take(n));
        assert(t.last() == v[n]);
        assert(escaped(v.take(n)).is_prefix_of(escaped(t)));
    }
}

/// Whether `part` stands in `s` at `i`.
spec fn stands_at(s: Seq<char>, i: int, part: Seq<char>) -> bool {
    &&& 0 <= i
    &&& i + part.len() <= s.len()
    &&& forall|j: int| 0 <= j < part.len() ==> s[i + j] == #[trigger] part[j]
}

/// The element from which a reader goes on.
spec fn element_or_start(open: Option<ElementView>) -> ElementView {
    match open {
        Some(e) => e,
        None => ElementView::start(),
    }
}

/// Reading the name of a parameter and the equals sign behind it.
proof fn lemma_read_name(
    s: Seq<char>,
    i: int,
    n: int,
    open: Option<ElementView>,
    done: Seq<ForwardedView>,
    name: Seq<char>,
)
    requires
        token(name),
        stands_at(s, i, name + seq!['=']),
        element_or_start(open).param_name is None,
        element_or_start(open).buffer.len() == 0,
        0 < n <= name.len(),
    ensures
        read_from(s, i, open, done) == read_from(
            s,
            i + n,
            Some(ElementView { buffer: name.take(n), ..element_or_start(open) }),
            done,
        ),
    decreases n,
{
    let e = element_or_start(open);
    let whole = name + seq!['='];
    assert(s[i + n - 1] == whole[n - 1]);
    assert(whole[n - 1] == name[n - 1]);
    if n == 1 {
        assert(name.take(1) =~= e.buffer.push(name[0]));
    } else {
        lemma_read_name(s, i, n - 1, open, done, name);
        assert(name.take(n) =~= name.take(n - 1).push(name[n - 1]));
    }
}

proof fn lemma_read_name_and_sign(
    s: Seq<char>,
    i: int,
    open: Option<ElementView>,
    done: Seq<ForwardedView>,
    name: Seq<char>,
)
    requires
        token(name),
        stands_at(s, i, name + seq!['=']),
        element_or_start(open).param_name is None,
        element_or_start(open).buffer.len() == 0,
    ensures
        read_from(s, i, open, done) == read_from(
            s,
            i + name.len() + 1,
            Some(
                ElementView {
                    param_name: Some(name),
                    buffer: Seq::empty(),
                    ..element_or_start(open)
                },
            ),
            done,
        ),
{
    let e = element_or_start(open);
    let n = name.len() as int;
    let whole = name + seq!['='];
    assert(s[i + n] == whole[n]);
    assert(name.take(n) =~= name);
    if n > 0 {
        lemma_read_name(s, i, n, open, done, name);
    } else {
        assert(e.buffer =~= name);
    }
}

/// Reading the first characters of a value that is a token.
proof fn lemma_read_token(
    s: Seq<char>,
    i: int,
    n: int,
    e: ElementView,
    done: Seq<ForwardedView>,
    v: Seq<char>,
)
    requires
        token(v),
        stands_at(s, i, v),
        e.param_name is Some,
        !e.quoted,
        e.buffer.len() == 0,
        0 <= n <= v.len(),
    ensures
        read_from(s, i, Some(e), done) == read_from(
            s,
            i + n,
            Some(ElementView { buffer: v.take(n), ..e }),
            done,
        ),
    decreases n,
{
    if n == 0 {
        assert(v.take(0) =~= e.buffer);
        assert((ElementView { buffer: v.take(0), ..e }) == e);
    } else {
        lemma_read_token(s, i, n - 1, e, done, v);
        assert(s[i + (n - 1)] == v[n - 1]);
        assert(v.take(n) =~= v.take(n - 1).push(v[n - 1]));
    }
}

/// Reading the first characters of a value inside quotes.
proof fn lemma_read_quoted(
    s: Seq<char>,
    i: int,
    n: int,
    e: ElementView,
    done: Seq<ForwardedView>,
    v: Seq<char>,
)
    requires
        no_backslash(v),
        stands_at(s, i, escaped(v)),
        0 < i,
        s[i - 1] == '"',
        e.param_name is Some,
        e.quoted,
        e.buffer.len() == 0,
        0 <= n <= v.len(),
    ensures
        read_from(s, i, Some(e), done) == read_from(
            s,
            i + escaped(v.take(n)).len(),
            Some(ElementView { buffer: v.take(n), ..e }),
            done,
        ),
        s[i + escaped(v.take(n)).len() - 1] != '\\',
    decreases n,
{
    if n == 0 {
        assert(v.take(0) =~= e.buffer);
        assert((ElementView { buffer: v.take(0), ..e }) == e);
    } else {
        lemma_read_quoted(s, i, n - 1, e, done, v);
        lemma_escaped_prefix(v, n);
        let t = v.take(n);
        let c = v[n - 1];
        assert(t.drop_last() =~= v.take(n - 1));
        assert(t.last() == c);
        assert(t =~= v.take(n - 1).push(c));
        let k = escaped(v.take(n - 1)).len() as int;
        let e1 = ElementView { buffer: v.take(n - 1), ..e };
        assert(escaped(t)[k] == escaped(v)[k]);
        assert(s[i + k] == escaped(v)[k]);
        if c == '"' {
            assert(escaped(t)[k] == '\\');
            assert(escaped(t)[k + 1] == '"');
            assert(escaped(v)[k + 1] == '"');
            assert(s[i + (k + 1)] == '"');
            assert(step(e1, s[i + k - 1], s[i + k]) == Ok::<_, ExceptionView>((e1, false)));
            assert(read_from(s, i + k, Some(e1), done) == read_from(s, i + k + 1, Some(e1), done));
            assert(s[i + k + 1 - 1] == '\\');
        } else {
            assert(escaped(t)[k] == c);
        }
    }
}

/// Reading a parameter's value.
proof fn lemma_read_value(
    s: Seq<char>,
    i: int,
    e: ElementView,
    done: Seq<ForwardedView>,
    v: Seq<char>,
)
    requires
        no_backslash(v),
        stands_at(s, i, quoted_if_needed(v)),
        e.param_name is Some,
        !e.quoted,
        e.buffer.len() == 0,
    ensures
        read_from(s, i, Some(e), done) == read_from(
            s,
            i + quoted_if_needed(v).len(),
            Some(ElementView { buffer: v, ..e }),
            done,
        ),
{
    if token(v) {
        lemma_read_token(s, i, v.len() as int, e, done, v);
        assert(v.take(v.len() as int) =~= v);
    } else {
        reveal_strlit("\"");
        let whole = quoted_if_needed(v);
        let n = escaped(v).len() as int;
        assert(whole[0] == '"');
        assert(s[i + 0] == '"');
        let e1 = ElementView { quoted: true, ..e };
        assert(read_from(s, i, Some(e), done) == read_from(s, i + 1, Some(e1), done));
        assert forall|j: int| 0 <= j < n implies s[i + 1 + j] == #[trigger] escaped(v)[j] by {
            assert(whole[j + 1] == escaped(v)[j]);
            assert(s[i + (j + 1)] == whole[j + 1]);
        }
        lemma_read_quoted(s, i + 1, v.len() as int, e1, done, v);
        assert(v.take(v.len() as int) =~= v);
        assert(whole[n + 1] == '"');
        assert(s[i + (n + 1)] == '"');
        let e2 = ElementView { buffer: v, ..e1 };
        assert(read_from(s, i + 1 + n, Some(e2), done) == read_from(
            s,
            i + 1 + n + 1,
            Some(ElementView { buffer: v, ..e }),
            done,
        ));
    }
}

/// The header that has the given parameters.
spec fn header_of(ps: Seq<(Seq<char>, Seq<char>)>) -> ForwardedView
    decreases ps.len(),
{
    if ps.len() == 0 {
        ForwardedView::empty()
    } else {
        header_of(ps.drop_last()).with_param(ps.last().0, ps.last().1)
    }
}

/// What stands in the text of the first parameters stands in the text of all, wherever that is.
proof fn lemma_part_stands(
    s: Seq<char>,
    p: int,
    all: Seq<char>,
    upto: Seq<char>,
    k: int,
    part: Seq<char>,
)
    requires
        stands_at(s, p, all),
        upto.is_prefix_of(all),
        stands_at(upto, k, part),
    ensures
        stands_at(s, p + k, part),
{
    assert forall|j: int| 0 <= j < part.len() implies s[p + k + j] == #[trigger] part[j] by {
        assert(upto[k + j] == part[j]);
        assert(all[k + j] == upto[k + j]);
        assert(s[p + (k + j)] == all[k + j]);
    }
}

/// Reading the first `n` parameters of the text of all, which stands at `p`.
proof fn lemma_read_params(
    s: Seq<char>,
    p: int,
    open: Option<ElementView>,
    done: Seq<ForwardedView>,
    ps: Seq<(Seq<char>, Seq<char>)>,
    n: int,
)
    requires
        0 < n <= ps.len(),
        forall|i: int|
            0 <= i < ps.len() ==> token((#[trigger] ps[i]).0) && no_backslash(ps[i].1),
        stands_at(s, p, with_extensions(Seq::empty(), ps)),
        element_or_start(open) == ElementView::start(),
    ensures
        read_from(s, p, open, done) == read_from(
            s,
            p + with_extensions(Seq::empty(), ps.take(n)).len(),
            Some(
                ElementView {
                    param_name: Some(ps[n - 1].0),
                    buffer: ps[n - 1].1,
                    quoted: false,
                    header: header_of(ps.take(n - 1)),
                },
            ),
            done,
        ),
    decreases n,
{
    let all = with_extensions(Seq::empty(), ps);
    let t = ps.take(n);
    assert(t.drop_last() =~= ps.take(n - 1));
    assert(t.last() == ps[n - 1]);
    let before = with_extensions(Seq::empty(), ps.take(n - 1));
    let (name, v) = ps[n - 1];
    let upto = with_extensions(Seq::empty(), t);
    lemma_extensions_prefix(ps, n);
    let k = before.len() as int;
    let q = quoted_if_needed(v);
    let sign = name + seq!['='];
    if n == 1 {
        assert(ps.take(0) =~= Seq::empty());
        assert(upto =~= sign + q);
        lemma_part_stands(s, p, all, upto, 0, sign);
        lemma_read_name_and_sign(s, p, open, done, name);
        let e = ElementView { param_name: Some(name), ..ElementView::start() };
        lemma_part_stands(s, p, all, upto, sign.len() as int, q);
        lemma_read_value(s, p + sign.len(), e, done, v);
    } else {
        lemma_read_params(s, p, open, done, ps, n - 1);
        let ps1 = ps.take(n - 1);
        assert(ps1.drop_last() =~= ps.take(n - 2));
        assert(ps1.last() == ps[n - 2]);
        let e0 = ElementView {
            param_name: Some(ps[n - 2].0),
            buffer: ps[n - 2].1,
            quoted: false,
            header: header_of(ps.take(n - 2)),
        };
        let e1 = ElementView {
            param_name: None,
            buffer: Seq::empty(),
            quoted: false,
            header: header_of(ps1),
        };
        assert(before == with_written(
            with_extensions(Seq::empty(), ps.take(n - 2)),
            ps[n - 2].0,
            Some(ps[n - 2].1),
        ));
        assert(before.len() > 0);
        assert(upto =~= before + seq![';'] + sign + q);
        lemma_part_stands(s, p, all, upto, k, seq![';']);
        assert(s[p + k + 0] == seq![';'][0]);
        assert(read_from(s, p + k, Some(e0), done) == read_from(s, p + k + 1, Some(e1), done));
        lemma_part_stands(s, p, all, upto, k + 1, sign);
        lemma_read_name_and_sign(s, p + k + 1, Some(e1), done, name);
        let e2 = ElementView { param_name: Some(name), ..e1 };
        lemma_part_stands(s, p, all, upto, k + 1 + sign.len(), q);
        lemma_read_value(s, p + k + 1 + sign.len(), e2, done, v);
    }
}

/// A text in which some character is no white space is not blank.
proof fn lemma_not_blank(s: Seq<char>, i: int)
    requires
        0 <= i < s.len(),
        !text::is_white_space(s[i]),
    ensures
        text::trim(s).len() > 0,
{
    lemma_not_blank_start(s, i);
}

proof fn lemma_not_blank_start(s: Seq<char>, i: int)
    requires
        0 <= i < s.len(),
        !text::is_white_space(s[i]),
    ensures
        text::trim(s).len() > 0,
    decreases s.len(),
{
    if text::is_white_space(s[0]) {
        let rest = s.subrange(1, s.len() as int);
        assert(rest[i - 1] == s[i]);
        lemma_not_blank_start(rest, i - 1);
        assert(text::trim_start(s) == text::trim_start(rest));
    } else {
        assert(text::trim_start(s) == s);
        lemma_not_blank_end(s, i);
    }
}

proof fn lemma_not_blank_end(s: Seq<char>, i: int)
    requires
        0 <= i < s.len(),
        !text::is_white_space(s[i]),
    ensures
        text::trim_end(s).len() > 0,
    decreases s.len(),
{
    if text::is_white_space(s.last()) {
        assert(s.drop_last()[i] == s[i]);
        lemma_not_blank_end(s.drop_last(), i);
    }
}

/// The extensions of a header are its last parameters.
proof fn lemma_header_of_extensions(
    base: Seq<(Seq<char>, Seq<char>)>,
    ext: Seq<(Seq<char>, Seq<char>)>,
)
    requires
        header_of(base).extensions.len() == 0,
        forall|i: int| 0 <= i < ext.len() ==> extension_name((#[trigger] ext[i]).0),
        forall|i: int, j: int|
            0 <= i < j < ext.len() ==> (#[trigger] ext[i]).0 != (#[trigger] ext[j]).0,
    ensures
        header_of(base + ext) == (ForwardedView { extensions: ext, ..header_of(base) }),
    decreases ext.len(),
{
    if ext.len() == 0 {
        assert(base + ext =~= base);
        assert(header_of(base) =~= (ForwardedView { extensions: ext, ..header_of(base) }));
    } else {
        let all = base + ext;
        let front = ext.drop_last();
        let (name, v) = ext.last();
        assert(all.drop_last() =~= base + front);
        assert(all.last() == ext.last());
        assert forall|i: int| 0 <= i < front.len() implies extension_name(
            (#[trigger] front[i]).0,
        ) by {
            assert(front[i] == ext[i]);
        }
        assert forall|i: int, j: int| 0 <= i < j < front.len() implies (#[trigger] front[i]).0 != (
        #[trigger] front[j]).0 by {
            assert(front[i] == ext[i] && front[j] == ext[j]);
        }
        lemma_header_of_extensions(base, front);
        assert forall|i: int| 0 <= i < front.len() implies (#[trigger] front[i]).0 != name by {
            assert(front[i] == ext[i] && ext[ext.len() - 1] == ext.last());
        }
        lemma_set_new(front, name, v);
        assert(set_at_back(front, name, v) =~= ext);
    }
}

/// A name that is not there yet is added at the back.
proof fn lemma_set_new(pairs: Seq<(Seq<char>, Seq<char>)>, k: Seq<char>, v: Seq<char>)
    requires
        forall|i: int| 0 <= i < pairs.len() ==> (#[trigger] pairs[i]).0 != k,
    ensures
        set_at_back(pairs, k, v) == pairs.push((k, v)),
    decreases pairs.len(),
{
    reveal(Seq::filter);
    if pairs.len() > 0 {
        let front = pairs.drop_last();
        assert forall|i: int| 0 <= i < front.len() implies (#[trigger] front[i]).0 != k by {
            assert(front[i] == pairs[i]);
        }
        lemma_set_new(front, k, v);
        assert(front.filter(has_other_key(k)) =~= front.push((k, v)).drop_last());
        assert(pairs =~= front.push(pairs.last()));
    }
}

proof fn lemma_names()
    ensures
        token("by"@),
        token("for"@),
        token("host"@),
        token("proto"@),
        text::lower("by"@) == "by"@,
        text::lower("for"@) == "for"@,
        text::lower("host"@) == "host"@,
        text::lower("proto"@) == "proto"@,
        "by"@ != "for"@,
        "by"@ != "host"@,
        "by"@ != "proto"@,
        "for"@ != "host"@,
        "for"@ != "proto"@,
        "host"@ != "proto"@,
{
    reveal_strlit("by");
    reveal_strlit("for");
    reveal_strlit("host");
    reveal_strlit("proto");
    assert(text::lower("by"@) =~= "by"@);
    assert(text::lower("for"@) =~= "for"@);
    assert(text::lower("host"@) =~= "host"@);
    assert(text::lower("proto"@) =~= "proto"@);
    assert("for"@[0] == 'f' && "host"@[0] == 'h');
    assert("by"@.len() == 2 && "proto"@.len() == 5);
}

proof fn lemma_header_of_opt(
    base: Seq<(Seq<char>, Seq<char>)>,
    name: Seq<char>,
    value: Option<Seq<char>>,
)
    ensures
        header_of(base + opt_param(name, value)) == match value {
            Some(v) => header_of(base).with_param(name, v),
            None => header_of(base),
        },
{
    let ps = base + opt_param(name, value);
    match value {
        Some(v) => {
            assert(ps.drop_last() =~= base);
            assert(ps.last() == (name, v));
        },
        None => {
            assert(ps =~= base);
        },
    }
}

/// The element from which a reader of the text of a header goes on that has come to its end.
spec fn read_up(h: ForwardedView) -> ElementView {
    let ps = params(h);
    ElementView {
        param_name: Some(ps.last().0),
        buffer: ps.last().1,
        quoted: false,
        header: header_of(ps.drop_last()),
    }
}

/// Reading the text of a header, which stands at `p`.
proof fn lemma_read_header(
    s: Seq<char>,
    p: int,
    open: Option<ElementView>,
    done: Seq<ForwardedView>,
    h: ForwardedView,
)
    requires
        writable(h),
        stands_at(s, p, written(h)),
        element_or_start(open) == ElementView::start(),
    ensures
        read_from(s, p, open, done) == read_from(
            s,
            p + written(h).len(),
            Some(read_up(h)),
            done,
        ),
        finish(read_up(h), s) == Ok::<_, ExceptionView>(h),
{
    let ps = params(h);
    let n = ps.len() as int;
    lemma_names();
    lemma_written_params(h);
    let a = opt_param("by"@, h.by);
    let b = opt_param("for"@, h.for_value);
    let c = opt_param("host"@, h.host);
    let d = opt_param("proto"@, h.proto);
    let fixed = a + b + c + d;
    assert forall|i: int| 0 <= i < ps.len() implies token((#[trigger] ps[i]).0) && no_backslash(
        ps[i].1,
    ) by {
        if i >= fixed.len() {
            assert(ps[i] == h.extensions[i - fixed.len()]);
        }
    }
    lemma_read_params(s, p, open, done, ps, n);
    assert(ps.take(n) =~= ps);
    assert(ps.drop_last() =~= ps.take(n - 1));
    // the parameters make up the header
    let e = Seq::<(Seq<char>, Seq<char>)>::empty();
    assert(e + a =~= a);
    lemma_header_of_opt(e, "by"@, h.by);
    lemma_header_of_opt(a, "for"@, h.for_value);
    lemma_header_of_opt(a + b, "host"@, h.host);
    lemma_header_of_opt(a + b + c, "proto"@, h.proto);
    lemma_header_of_extensions(fixed, h.extensions);
    assert(header_of(ps) =~= h);
}

/// The text of a header holds an equals sign.
proof fn lemma_written_sign(h: ForwardedView)
    requires
        writable(h),
    ensures
        exists|k: int| 0 <= k < written(h).len() && #[trigger] written(h)[k] == '=',
{
    let ps = params(h);
    let s = written(h);
    lemma_written_params(h);
    lemma_extensions_prefix(ps, 1);
    let one = ps.take(1);
    assert(one.drop_last() =~= Seq::empty());
    assert(with_extensions(Seq::empty(), one.drop_last()) == Seq::<char>::empty());
    assert(one.last() == ps[0]);
    let first = with_extensions(Seq::empty(), one);
    assert(first == with_written(Seq::empty(), ps[0].0, Some(ps[0].1)));
    let k = ps[0].0.len() as int;
    assert(first[k] == '=');
    assert(s[k] == '=');
}

/// The headers as they are written one after the other, with a comma and a blank in between.
pub open spec fn written_list(hs: Seq<ForwardedView>) -> Seq<char>
    decreases hs.len(),
{
    if hs.len() == 0 {
        Seq::empty()
    } else if hs.len() == 1 {
        written(hs[0])
    } else {
        written_list(hs.drop_last()) + seq![',', ' '] + written(hs.last())
    }
}

/// The text of the first headers is a prefix of the text of all.
proof fn lemma_list_prefix(hs: Seq<ForwardedView>, n: int)
    requires
        0 <= n <= hs.len(),
    ensures
        written_list(hs.take(n)).is_prefix_of(written_list(hs)),
    decreases hs.len() - n,
{
    if n == hs.len() {
        assert(hs.take(n) =~= hs);
    } else {
        lemma_list_prefix(hs, n + 1);
        let t = hs.take(n + 1);
        assert(t.drop_last() =~= hs.take(n));
        assert(written_list(hs.take(n)).is_prefix_of(written_list(t)));
    }
}

/// Reading the first `n` headers of the text of all.
proof fn lemma_read_list(hs: Seq<ForwardedView>, n: int)
    requires
        0 < n <= hs.len(),
        forall|i: int| 0 <= i < hs.len() ==> writable(#[trigger] hs[i]),
    ensures
        read_from(written_list(hs), 0, None, Seq::empty()) == read_from(
            written_list(hs),
            written_list(hs.take(n)).len() as int,
            Some(read_up(hs[n - 1])),
            hs.take(n - 1),
        ),
        finish(read_up(hs[n - 1]), written_list(hs)) == Ok::<_, ExceptionView>(hs[n - 1]),
    decreases n,
{
    let s = written_list(hs);
    let t = hs.take(n);
    let upto = written_list(t);
    let h = hs[n - 1];
    lemma_list_prefix(hs, n);
    assert(t.last() == h);
    if n == 1 {
        assert(upto == written(h));
        assert(stands_at(s, 0, written(h)));
        assert(hs.take(0) =~= Seq::empty());
        lemma_read_header(s, 0, None, Seq::empty(), h);
    } else {
        lemma_read_list(hs, n - 1);
        assert(t.drop_last() =~= hs.take(n - 1));
        let k = written_list(hs.take(n - 1)).len() as int;
        let done = hs.take(n - 1);
        assert(done =~= hs.take(n - 2).push(hs[n - 2]));
        assert(upto[k] == ',' && upto[k + 1] == ' ');
        assert(s[k] == ',' && s[k + 1] == ' ');
        assert(read_from(s, k, Some(read_up(hs[n - 2])), hs.take(n - 2)) == read_from(
            s,
            k + 1,
            None,
            done,
        ));
        assert(read_from(s, k + 1, None, done) == read_from(
            s,
            k + 2,
            Some(ElementView::start()),
            done,
        ));
        assert forall|j: int| 0 <= j < written(h).len() implies s[k + 2 + j] == #[trigger] written(
            h,
        )[j] by {
            assert(upto[k + 2 + j] == written(h)[j]);
        }
        lemma_read_header(s, k + 2, Some(ElementView::start()), done, h);
    }
}

/// What [`crate::forwarded::ForwardedHeader::to_string`] writes of headers that say something,
/// without backslashes in their values, [`crate::forwarded::ForwardedHeader::from_string`] reads
/// as those headers, in their order, and nothing else, when their texts are joined by a comma and
/// a blank.
pub proof fn law_written_list_is_read_back(hs: Seq<ForwardedView>)
    requires
        hs.len() > 0,
        forall|i: int| 0 <= i < hs.len() ==> writable(#[trigger] hs[i]),
    ensures
        parsed(written_list(hs)) == Ok::<_, ExceptionView>(hs),
{
    let s = written_list(hs);
    let n = hs.len() as int;
    lemma_read_list(hs, n);
    assert(hs.take(n) =~= hs);
    assert(hs.take(n - 1).push(hs[n - 1]) =~= hs);
    lemma_written_sign(hs[0]);
    lemma_list_prefix(hs, 1);
    assert(written_list(hs.take(1)) == written(hs[0]));
    let k = choose|k: int| 0 <= k < written(hs[0]).len() && #[trigger] written(hs[0])[k] == '=';
    assert(s[k] == '=');
    lemma_not_blank(s, k);
}

/// What [`crate::forwarded::ForwardedHeader::to_string`] writes of a header that says something,
/// without backslashes in its values, [`crate::forwarded::ForwardedHeader::from_string`] reads
/// as that header and nothing else.
pub proof fn law_written_is_read_back(h: ForwardedView)
    requires
        writable(h),
    ensures
        parsed(written(h)) == Ok::<_, ExceptionView>(seq![h]),
{
    law_written_list_is_read_back(seq![h]);
}

} // verus!
