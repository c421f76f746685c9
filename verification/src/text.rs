//! Text helpers: the operations on strings that the router's protocols are written in.

use vstd::prelude::*;
use vstd::string::*;

verus! {

/// `String::push`: appends one character.
pub assume_specification[ String::push ](s: &mut String, c: char)
    ensures
        final(s)@ == old(s)@.push(c),
;

/// `String::push_str`: appends a string slice.
pub assume_specification[ String::push_str ](s: &mut String, other: &str)
    ensures
        final(s)@ == old(s)@ + other@,
;

/// `str`'s `==`: two slices are equal exactly when they hold the same characters.
#[verifier::external_body]
pub(crate) fn str_eq(a: &str, b: &str) -> (r: bool)
    ensures
        r == (a@ == b@),
{
    a == b
}

/// `String::from_utf8`: the text that the bytes encode, or nothing when they are not UTF-8.
#[verifier::external_body]
pub(crate) fn utf8_to_string(bytes: Vec<u8>) -> (r: Option<String>)
    ensures
        r is Some <==> vstd::utf8::valid_utf8(bytes@),
        r matches Some(s) ==> s@ == vstd::utf8::decode_utf8(bytes@),
{
    String::from_utf8(bytes).ok()
}

/// `Debug` of the error that `String::from_utf8` gives for bytes that are not UTF-8.
pub uninterp spec fn utf8_error_debug(bytes: Seq<u8>) -> Seq<char>;

/// `String::from_utf8` on bytes that are not UTF-8, then `Debug` of its error: what is shown
/// depends on the bytes alone.
#[verifier::external_body]
pub(crate) fn utf8_error_text(bytes: Vec<u8>) -> (r: String)
    requires
        !vstd::utf8::valid_utf8(bytes@),
    ensures
        r@ == utf8_error_debug(bytes@),
{
    format!("{:?}", String::from_utf8(bytes).unwrap_err())
}

/// `Debug` of a string.
pub uninterp spec fn str_debug(s: Seq<char>) -> Seq<char>;

/// std's `Debug` of a string: what is shown depends on the text alone.
#[verifier::external_body]
pub(crate) fn debug_str(s: &str) -> (r: String)
    ensures
        r@ == str_debug(s@),
{
    format!("{:?}", s)
}

/// The characters of a string, as a vector.
pub fn chars_of(s: &str) -> (r: Vec<char>)
    ensures
        r@ == s@,
{
    let mut r: Vec<char> = Vec::new();
    for c in it: s.chars()
        invariant
            it.seq() == s@,
            r@ == s@.take(it.index() as int),
    {
        r.push(c);
        assert(s@.take(it.index() + 1) =~= s@.take(it.index() as int).push(c));
    }
    assert(s@.take(s@.len() as int) =~= s@);
    r
}

/// The string that holds the given characters in order.
pub fn string_of(chars: &Vec<char>) -> (r: String)
    ensures
        r@ == chars@,
{
    let mut r = String::new();
    let mut i: usize = 0;
    while i < chars.len()
        invariant
            i <= chars.len(),
            r@ == chars@.take(i as int),
        decreases chars.len() - i,
    {
        r.push(chars[i]);
        assert(chars@.take(i + 1) =~= chars@.take(i as int).push(chars@[i as int]));
        i = i + 1;
    }
    assert(chars@.take(chars@.len() as int) =~= chars@);
    r
}

/// The string made of `chars[from..to]`.
pub fn string_between(chars: &Vec<char>, from: usize, to: usize) -> (r: String)
    requires
        from <= to <= chars.len(),
    ensures
        r@ == chars@.subrange(from as int, to as int),
{
    let mut r = String::new();
    let mut i: usize = from;
    while i < to
        invariant
            from <= i <= to <= chars.len(),
            r@ == chars@.subrange(from as int, i as int),
        decreases to - i,
    {
        r.push(chars[i]);
        assert(chars@.subrange(from as int, i + 1) =~= chars@.subrange(
            from as int,
            i as int,
        ).push(chars@[i as int]));
        i = i + 1;
    }
    r
}

/// Whether `pat` stands in `s` at `i`.
pub open spec fn occurs_at(s: Seq<char>, pat: Seq<char>, i: int) -> bool {
    0 <= i && i + pat.len() <= s.len() && s.subrange(i, i + pat.len()) == pat
}

/// `s` from `i` on without the occurrences of `pat`, which are taken from left to right.
pub open spec fn removed_from(s: Seq<char>, pat: Seq<char>, i: int) -> Seq<char>
    decreases s.len() - i,
{
    if i >= s.len() {
        Seq::empty()
    } else if pat.len() > 0 && occurs_at(s, pat, i) {
        removed_from(s, pat, i + pat.len())
    } else {
        seq![s[i]] + removed_from(s, pat, i + 1)
    }
}

/// Removes the occurrences of `pat`.
pub fn remove_all(s: &str, pat: &str) -> (r: String)
    requires
        pat@.len() > 0,
    ensures
        r@ == removed_from(s@, pat@, 0),
{
    let chars = chars_of(s);
    let pat_chars = chars_of(pat);
    let mut r = String::new();
    let mut i: usize = 0;
    assert(r@ + removed_from(s@, pat@, 0) =~= removed_from(s@, pat@, 0));
    while i < chars.len()
        invariant
            i <= chars.len(),
            chars@ == s@,
            pat_chars@ == pat@,
            pat@.len() > 0,
            removed_from(s@, pat@, 0) == r@ + removed_from(s@, pat@, i as int),
        decreases chars.len() - i,
    {
        if stands_at(&chars, &pat_chars, i) {
            i = i + pat_chars.len();
        } else {
            let ghost before = r@;
            r.push(chars[i]);
            assert(before + (seq![s@[i as int]] + removed_from(s@, pat@, i + 1)) =~= r@
                + removed_from(s@, pat@, i + 1));
            i = i + 1;
        }
    }
    assert(r@ + removed_from(s@, pat@, i as int) =~= r@);
    r
}

fn stands_at(chars: &Vec<char>, pat: &Vec<char>, i: usize) -> (r: bool)
    requires
        i <= chars@.len(),
    ensures
        r == occurs_at(chars@, pat@, i as int),
{
    if pat.len() > chars.len() - i {
        return false;
    }
    let mut j: usize = 0;
    while j < pat.len()
        invariant
            i + pat.len() <= chars.len(),
            j <= pat.len(),
            forall|k: int| 0 <= k < j ==> chars@[i + k] == #[trigger] pat@[k],
        decreases pat.len() - j,
    {
        if chars[i + j] != pat[j] {
            assert(chars@.subrange(i as int, i + pat@.len())[j as int] != pat@[j as int]);
            return false;
        }
        j = j + 1;
    }
    assert(chars@.subrange(i as int, i + pat@.len()) =~= pat@);
    true
}

/// The concatenation of two strings.
pub fn concat(a: &str, b: &str) -> (r: String)
    ensures
        r@ == a@ + b@,
{
    let mut r = a.to_string();
    r.push_str(b);
    r
}

/// The pieces of `s` between the occurrences of `sep`: always one more than there are
/// occurrences.
pub open spec fn split(s: Seq<char>, sep: char) -> Seq<Seq<char>>
    decreases s.len(),
{
    if s.len() == 0 {
        seq![Seq::<char>::empty()]
    } else {
        let before = split(s.drop_last(), sep);
        if s.last() == sep {
            before.push(Seq::<char>::empty())
        } else {
            before.drop_last().push(before.last().push(s.last()))
        }
    }
}

/// The text of each string of a vector.
pub open spec fn texts(v: Seq<String>) -> Seq<Seq<char>> {
    v.map_values(|s: String| s@)
}

pub proof fn lemma_split_nonempty(s: Seq<char>, sep: char)
    ensures
        split(s, sep).len() >= 1,
    decreases s.len(),
{
    if s.len() > 0 {
        lemma_split_nonempty(s.drop_last(), sep);
    }
}

/// Splits `s` at each `sep`.
pub fn split_on(s: &str, sep: char) -> (r: Vec<String>)
    ensures
        texts(r@) == split(s@, sep),
        r@.len() >= 1,
{
    let chars = chars_of(s);
    let mut r: Vec<String> = Vec::new();
    let mut cur = String::new();
    let mut i: usize = 0;
    assert(chars@.take(0) =~= Seq::<char>::empty());
    assert(texts(r@).push(cur@) =~= split(chars@.take(0), sep));
    while i < chars.len()
        invariant
            i <= chars.len(),
            chars@ == s@,
            texts(r@).push(cur@) == split(chars@.take(i as int), sep),
        decreases chars.len() - i,
    {
        let c = chars[i];
        proof {
            let head = chars@.take(i as int);
            let next = chars@.take(i + 1);
            assert(next.drop_last() =~= head);
            assert(next.last() == c);
            assert(texts(r@).push(cur@).drop_last() =~= texts(r@));
            assert(texts(r@).push(cur@).last() == cur@);
        }
        if c == sep {
            let ghost before = r@;
            r.push(cur);
            cur = String::new();
            assert(texts(r@) =~= texts(before).push(r@.last()@));
        } else {
            cur.push(c);
        }
        i = i + 1;
    }
    assert(chars@.take(chars@.len() as int) =~= chars@);
    let ghost before = r@;
    r.push(cur);
    assert(texts(r@) =~= texts(before).push(r@.last()@));
    r
}

/// The characters with Unicode's `White_Space` property.
pub open spec fn is_white_space(c: char) -> bool {
    let v = c as u32;
    ||| 0x9 <= v <= 0xD
    ||| v == 0x20
    ||| v == 0x85
    ||| v == 0xA0
    ||| v == 0x1680
    ||| 0x2000 <= v <= 0x200A
    ||| v == 0x2028
    ||| v == 0x2029
    ||| v == 0x202F
    ||| v == 0x205F
    ||| v == 0x3000
}

/// Whether `c` is white space.
pub fn white_space(c: char) -> (r: bool)
    ensures
        r == is_white_space(c),
{
    let v: u32 = c as u32;
    (0x9 <= v && v <= 0xD) || v == 0x20 || v == 0x85 || v == 0xA0 || v == 0x1680 || (0x2000 <= v
        && v <= 0x200A) || v == 0x2028 || v == 0x2029 || v == 0x202F || v == 0x205F || v == 0x3000
}

/// `s` without its leading white space.
pub open spec fn trim_start(s: Seq<char>) -> Seq<char>
    decreases s.len(),
{
    if s.len() > 0 && is_white_space(s[0]) {
        trim_start(s.drop_first())
    } else {
        s
    }
}

/// `s` without its trailing white space.
pub open spec fn trim_end(s: Seq<char>) -> Seq<char>
    decreases s.len(),
{
    if s.len() > 0 && is_white_space(s.last()) {
        trim_end(s.drop_last())
    } else {
        s
    }
}

/// `s` without the white space at both ends.
pub open spec fn trim(s: Seq<char>) -> Seq<char> {
    trim_end(trim_start(s))
}

/// `s` without the white space at both ends.
pub fn trimmed(s: &str) -> (r: String)
    ensures
        r@ == trim(s@),
{
    let chars = chars_of(s);
    let n: usize = chars.len();
    let mut from: usize = 0;
    assert(chars@.subrange(0, n as int) =~= chars@);
    while from < n && white_space(chars[from])
        invariant
            from <= n,
            n == chars@.len(),
            chars@ == s@,
            trim_start(s@) == trim_start(chars@.subrange(from as int, n as int)),
        decreases n - from,
    {
        assert(chars@.subrange(from as int, n as int).drop_first() =~= chars@.subrange(
            from + 1,
            n as int,
        ));
        from = from + 1;
    }
    assert(trim_start(s@) == chars@.subrange(from as int, n as int));
    let mut to: usize = n;
    while to > from && white_space(chars[to - 1])
        invariant
            from <= to <= n,
            n == chars@.len(),
            chars@ == s@,
            trim(s@) == trim_end(chars@.subrange(from as int, to as int)),
        decreases to,
    {
        assert(chars@.subrange(from as int, to as int).drop_last() =~= chars@.subrange(
            from as int,
            to - 1,
        ));
        to = to - 1;
    }
    string_between(&chars, from, to)
}

/// `c` with an ASCII capital letter made small.
pub open spec fn lower_char(c: char) -> char {
    if 'A' <= c <= 'Z' {
        ((c as u32) + 32) as char
    } else {
        c
    }
}

/// `s` with the ASCII capital letters made small.
pub open spec fn lower(s: Seq<char>) -> Seq<char> {
    s.map_values(|c: char| lower_char(c))
}

/// `c` with an ASCII capital letter made small.
pub fn char_lowered(c: char) -> (r: char)
    ensures
        r == lower_char(c),
{
    if 'A' <= c && c <= 'Z' {
        ((c as u8) + 32) as char
    } else {
        c
    }
}

/// `s` with the ASCII capital letters made small.
pub fn lowered(s: &str) -> (r: String)
    ensures
        r@ == lower(s@),
{
    let mut r = String::new();
    for c in it: s.chars()
        invariant
            it.seq() == s@,
            r@ == lower(s@.take(it.index() as int)),
    {
        r.push(char_lowered(c));
        assert(lower(s@.take(it.index() + 1)) =~= lower(s@.take(it.index() as int)).push(
            lower_char(c),
        ));
    }
    assert(s@.take(s@.len() as int) =~= s@);
    r
}

/// Whether two texts differ at most in the case of ASCII letters.
pub fn same_ignoring_case(a: &str, b: &str) -> (r: bool)
    ensures
        r == (lower(a@) == lower(b@)),
{
    let x = lowered(a);
    let y = lowered(b);
    x == y
}

/// The pieces with `sep` between each two.
pub open spec fn join(parts: Seq<Seq<char>>, sep: Seq<char>) -> Seq<char>
    decreases parts.len(),
{
    if parts.len() == 0 {
        Seq::empty()
    } else if parts.len() == 1 {
        parts[0]
    } else {
        join(parts.drop_last(), sep) + sep + parts.last()
    }
}

/// Strings as they are shown in a list.
pub open spec fn strings_debug(v: Seq<Seq<char>>) -> Seq<char> {
    "["@ + join(v.map_values(|s: Seq<char>| str_debug(s)), ", "@) + "]"@
}

/// Strings as they are shown in a list.
pub fn debug_strings(v: &Vec<String>) -> (r: String)
    ensures
        r@ == strings_debug(texts(v@)),
{
    let ghost want = texts(v@).map_values(|s: Seq<char>| str_debug(s));
    let mut shown: Vec<String> = Vec::new();
    let mut i: usize = 0;
    while i < v.len()
        invariant
            i <= v.len(),
            want == texts(v@).map_values(|s: Seq<char>| str_debug(s)),
            texts(shown@) == want.take(i as int),
        decreases v.len() - i,
    {
        let ghost before = shown@;
        shown.push(debug_str(v[i].as_str()));
        proof {
            assert(want[i as int] == str_debug(v@[i as int]@));
            assert(texts(shown@) =~= texts(before).push(want[i as int]));
            assert(want.take(i + 1) =~= want.take(i as int).push(want[i as int]));
        }
        i = i + 1;
    }
    assert(want.take(want.len() as int) =~= want);
    let mut r = concat("[", joined(&shown, ", ").as_str());
    r.push_str("]");
    r
}

/// The strings with `sep` between each two.
pub fn joined(parts: &Vec<String>, sep: &str) -> (r: String)
    ensures
        r@ == join(texts(parts@), sep@),
{
    let mut r = String::new();
    let mut i: usize = 0;
    assert(texts(parts@).take(0) =~= Seq::<Seq<char>>::empty());
    while i < parts.len()
        invariant
            i <= parts.len(),
            r@ == join(texts(parts@).take(i as int), sep@),
        decreases parts.len() - i,
    {
        proof {
            let next = texts(parts@).take(i + 1);
            assert(next.drop_last() =~= texts(parts@).take(i as int));
            assert(next.last() == parts@[i as int]@);
            if i == 0 {
                assert(next[0] == parts@[0]@);
                assert(r@ + parts@[0]@ =~= parts@[0]@);
            }
        }
        if i > 0 {
            r.push_str(sep);
        }
        r.push_str(parts[i].as_str());
        i = i + 1;
    }
    assert(texts(parts@).take(parts@.len() as int) =~= texts(parts@));
    r
}

/// The decimal digit `d`.
pub open spec fn digit_char(d: nat) -> char {
    (48 + d) as char
}

/// `n` in decimal, without leading zeros.
pub open spec fn decimal(n: nat) -> Seq<char>
    decreases n,
{
    if n < 10 {
        seq![digit_char(n)]
    } else {
        decimal(n / 10).push(digit_char(n % 10))
    }
}

/// `v` in decimal, with a minus sign in front of a negative number.
pub open spec fn decimal_int(v: int) -> Seq<char> {
    if v < 0 {
        seq!['-'] + decimal((-v) as nat)
    } else {
        decimal(v as nat)
    }
}

/// Appends `n` in decimal.
pub fn push_decimal(out: &mut String, n: u64)
    ensures
        final(out)@ == old(out)@ + decimal(n as nat),
    decreases n,
{
    if n >= 10 {
        push_decimal(out, n / 10);
    }
    let d: u64 = n % 10;
    out.push((48u8 + (d as u8)) as char);
    assert(out@ =~= old(out)@ + decimal(n as nat));
}

/// `v` in decimal.
pub fn int_text(v: i64) -> (r: String)
    ensures
        r@ == decimal_int(v as int),
{
    let mut out = String::new();
    if v < 0 {
        out.push('-');
        let magnitude: u64 = (-(v as i128)) as u64;
        push_decimal(&mut out, magnitude);
        assert(out@ =~= decimal_int(v as int));
    } else {
        push_decimal(&mut out, v as u64);
        assert(out@ =~= decimal_int(v as int));
    }
    out
}

/// Why a text is not a number, as the standard library tells the reasons apart.
#[derive(Debug, Clone, Copy, PartialEq, Eq, Structural)]
pub enum IntErrorKind {
    Empty,
    InvalidDigit,
    PosOverflow,
}

impl IntErrorKind {
    /// The name of the reason.
    pub open spec fn name(self) -> Seq<char> {
        match self {
            IntErrorKind::Empty => "Empty"@,
            IntErrorKind::InvalidDigit => "InvalidDigit"@,
            IntErrorKind::PosOverflow => "PosOverflow"@,
        }
    }

    /// The name of the reason.
    pub fn as_str(&self) -> (r: &'static str)
        ensures
            r@ == self.name(),
    {
        match self {
            IntErrorKind::Empty => "Empty",
            IntErrorKind::InvalidDigit => "InvalidDigit",
            IntErrorKind::PosOverflow => "PosOverflow",
        }
    }
}

/// Whether `c` is a decimal digit.
pub open spec fn is_digit(c: char) -> bool {
    '0' <= c <= '9'
}

/// The number that a run of decimal digits stands for, read from the left and refused at the
/// first character that is no digit or that takes the number above `max`.
pub open spec fn digits_value(s: Seq<char>, max: nat) -> Result<nat, IntErrorKind>
    decreases s.len(),
{
    if s.len() == 0 {
        Ok(0)
    } else {
        match digits_value(s.drop_last(), max) {
            Err(e) => Err(e),
            Ok(v) => if !is_digit(s.last()) {
                Err(IntErrorKind::InvalidDigit)
            } else if v * 10 + (s.last() as nat - 48) > max {
                Err(IntErrorKind::PosOverflow)
            } else {
                Ok((v * 10 + (s.last() as nat - 48)) as nat)
            },
        }
    }
}

/// The number that `s` spells: an optional plus sign, then at least one digit.
pub open spec fn unsigned_value(s: Seq<char>, max: nat) -> Result<nat, IntErrorKind> {
    if s.len() == 0 {
        Err(IntErrorKind::Empty)
    } else if s[0] == '+' && s.len() == 1 {
        Err(IntErrorKind::InvalidDigit)
    } else if s[0] == '+' {
        digits_value(s.subrange(1, s.len() as int), max)
    } else {
        digits_value(s, max)
    }
}

/// The number that `s` spells: an optional sign, then at least one digit.
pub open spec fn signed_value(s: Seq<char>) -> Option<int> {
    if s.len() > 1 && s[0] == '-' {
        match digits_value(s.subrange(1, s.len() as int), 0x8000_0000_0000_0000) {
            Ok(v) => Some(-(v as int)),
            Err(_) => None,
        }
    } else {
        match unsigned_value(s, 0x7fff_ffff_ffff_ffff) {
            Ok(v) => Some(v as int),
            Err(_) => None,
        }
    }
}

proof fn lemma_digits_error_stays(s: Seq<char>, n: int, max: nat)
    requires
        0 <= n <= s.len(),
        digits_value(s.take(n), max) is Err,
    ensures
        digits_value(s, max) == digits_value(s.take(n), max),
    decreases s.len() - n,
{
    if n == s.len() {
        assert(s.take(n) =~= s);
    } else {
        assert(s.take(n + 1).drop_last() =~= s.take(n));
        lemma_digits_error_stays(s, n + 1, max);
    }
}

/// Reads the digits of `chars` from position `from` on.
fn read_digits(chars: &Vec<char>, from: usize, max: u64) -> (r: Result<u64, IntErrorKind>)
    requires
        from <= chars.len(),
    ensures
        match r {
            Ok(v) => digits_value(chars@.subrange(from as int, chars@.len() as int), max as nat)
                == Ok::<nat, IntErrorKind>(v as nat),
            Err(e) => digits_value(chars@.subrange(from as int, chars@.len() as int), max as nat)
                == Err::<nat, IntErrorKind>(e),
        },
{
    let ghost rest = chars@.subrange(from as int, chars@.len() as int);
    let mut v: u64 = 0;
    let mut i: usize = from;
    assert(rest.take(0) =~= Seq::<char>::empty());
    while i < chars.len()
        invariant
            from <= i <= chars.len(),
            rest == chars@.subrange(from as int, chars@.len() as int),
            v <= max,
            digits_value(rest.take(i - from), max as nat) == Ok::<nat, IntErrorKind>(v as nat),
        decreases chars.len() - i,
    {
        let c = chars[i];
        proof {
            let next = rest.take(i - from + 1);
            assert(next.drop_last() =~= rest.take(i - from));
            assert(next.last() == c);
        }
        if !('0' <= c && c <= '9') {
            proof {
                lemma_digits_error_stays(rest, i - from + 1, max as nat);
            }
            return Err(IntErrorKind::InvalidDigit);
        }
        let wide: u128 = (v as u128) * 10 + ((c as u32) - 48) as u128;
        if wide > max as u128 {
            proof {
                lemma_digits_error_stays(rest, i - from + 1, max as nat);
            }
            return Err(IntErrorKind::PosOverflow);
        }
        v = wide as u64;
        i = i + 1;
    }
    assert(rest.take(rest.len() as int) =~= rest);
    Ok(v)
}

/// Reads an unsigned number that is at most `max`.
pub fn parse_unsigned(s: &str, max: u64) -> (r: Result<u64, IntErrorKind>)
    ensures
        match r {
            Ok(v) => unsigned_value(s@, max as nat) == Ok::<nat, IntErrorKind>(v as nat),
            Err(e) => unsigned_value(s@, max as nat) == Err::<nat, IntErrorKind>(e),
        },
{
    let chars = chars_of(s);
    if chars.len() == 0 {
        return Err(IntErrorKind::Empty);
    }
    if chars[0] == '+' {
        if chars.len() == 1 {
            return Err(IntErrorKind::InvalidDigit);
        }
        return read_digits(&chars, 1, max);
    }
    assert(chars@.subrange(0, chars@.len() as int) =~= chars@);
    read_digits(&chars, 0, max)
}

/// Reads a status code: an unsigned number that fits sixteen bits.
pub fn parse_u16(s: &str) -> (r: Result<u16, IntErrorKind>)
    ensures
        match r {
            Ok(v) => unsigned_value(s@, 0xffff) == Ok::<nat, IntErrorKind>(v as nat),
            Err(e) => unsigned_value(s@, 0xffff) == Err::<nat, IntErrorKind>(e),
        },
{
    match parse_unsigned(s, 0xffff) {
        Ok(v) => {
            proof {
                lemma_unsigned_bound(s@, 0xffff);
            }
            Ok(v as u16)
        },
        Err(e) => Err(e),
    }
}

proof fn lemma_digits_bound(s: Seq<char>, max: nat)
    ensures
        digits_value(s, max) matches Ok(v) ==> v <= max,
    decreases s.len(),
{
    if s.len() > 0 {
        lemma_digits_bound(s.drop_last(), max);
    }
}

proof fn lemma_unsigned_bound(s: Seq<char>, max: nat)
    ensures
        unsigned_value(s, max) matches Ok(v) ==> v <= max,
{
    lemma_digits_bound(s, max);
    if s.len() > 0 {
        lemma_digits_bound(s.subrange(1, s.len() as int), max);
    }
}

/// Reads a signed number that fits sixty-four bits.
pub fn parse_i64(s: &str) -> (r: Option<i64>)
    ensures
        match r {
            Some(v) => signed_value(s@) == Some(v as int),
            None => signed_value(s@) is None,
        },
{
    let chars = chars_of(s);
    if chars.len() > 1 && chars[0] == '-' {
        proof {
            lemma_digits_bound(s@.subrange(1, s@.len() as int), 0x8000_0000_0000_0000);
        }
        match read_digits(&chars, 1, 0x8000_0000_0000_0000) {
            Ok(v) => Some((-(v as i128)) as i64),
            Err(_) => None,
        }
    } else {
        proof {
            lemma_unsigned_bound(s@, 0x7fff_ffff_ffff_ffff);
        }
        match parse_unsigned(s, 0x7fff_ffff_ffff_ffff) {
            Ok(v) => Some(v as i64),
            Err(_) => None,
        }
    }
}

} // verus!
