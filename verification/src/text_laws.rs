//! What holds of texts, whatever they say.

use crate::text;
use crate::text::{
    decimal, decimal_int, digits_value, is_digit, is_white_space, join, lower, occurs_at,
    removed_from, signed_value, split, trim, trim_end, trim_start, unsigned_value, IntErrorKind,
};
use vstd::prelude::*;

verus! {

/// A text without the separator is one piece.
pub proof fn law_split_of_one_piece(s: Seq<char>, sep: char)
    requires
        !s.contains(sep),
    ensures
        split(s, sep) == seq![s],
    decreases s.len(),
{
    if s.len() > 0 {
        let front = s.drop_last();
        assert(!front.contains(sep)) by {
            if front.contains(sep) {
                let i = choose|i: int| 0 <= i < front.len() && front[i] == sep;
                assert(s[i] == sep);
            }
        }
        law_split_of_one_piece(front, sep);
        assert(s[s.len() - 1] != sep);
        assert(front.push(s.last()) =~= s);
        assert(split(s, sep) =~= seq![s]);
    } else {
        assert(s =~= Seq::<char>::empty());
        assert(split(s, sep) =~= seq![s]);
    }
}

/// What stands in front of the first separator is the first piece; the others are the pieces of
/// what stands behind it.
pub proof fn law_split_at_first(first: Seq<char>, sep: char, rest: Seq<char>)
    requires
        !first.contains(sep),
    ensures
        split(first + seq![sep] + rest, sep) == seq![first] + split(rest, sep),
    decreases rest.len(),
{
    let s = first + seq![sep] + rest;
    if rest.len() == 0 {
        law_split_of_one_piece(first, sep);
        assert(s.drop_last() =~= first);
        assert(s.last() == sep);
        assert(split(s, sep) =~= seq![first] + split(rest, sep));
    } else {
        let front = first + seq![sep] + rest.drop_last();
        assert(s.drop_last() =~= front);
        assert(s.last() == rest.last());
        law_split_at_first(first, sep, rest.drop_last());
        text::lemma_split_nonempty(rest.drop_last(), sep);
        let before = split(rest.drop_last(), sep);
        assert((seq![first] + before).last() == before.last());
        assert((seq![first] + before).drop_last() =~= seq![first] + before.drop_last());
        assert(split(s, sep) =~= seq![first] + split(rest, sep));
    }
}

/// What stands behind the last separator is the last piece; the others are the pieces of what
/// stands in front of it.
pub proof fn law_split_at_last(front: Seq<char>, sep: char, last: Seq<char>)
    requires
        !last.contains(sep),
    ensures
        split(front + seq![sep] + last, sep) == split(front, sep).push(last),
    decreases last.len(),
{
    let s = front + seq![sep] + last;
    if last.len() == 0 {
        assert(s.drop_last() =~= front);
        assert(s.last() == sep);
        assert(last =~= Seq::<char>::empty());
        assert(split(s, sep) =~= split(front, sep).push(last));
    } else {
        let shorter = last.drop_last();
        assert(!shorter.contains(sep)) by {
            if shorter.contains(sep) {
                let i = choose|i: int| 0 <= i < shorter.len() && shorter[i] == sep;
                assert(last[i] == sep);
            }
        }
        law_split_at_last(front, sep, shorter);
        assert(s.drop_last() =~= front + seq![sep] + shorter);
        assert(last[last.len() - 1] != sep);
        assert(s.last() == last.last());
        assert(shorter.push(last.last()) =~= last);
        assert(split(s, sep) =~= split(front, sep).push(last));
    }
}

/// No piece holds the separator, and the pieces with the separator between them are the text.
pub proof fn law_pieces_make_up_the_text(s: Seq<char>, sep: char)
    ensures
        split(s, sep).len() >= 1,
        join(split(s, sep), seq![sep]) == s,
        forall|i: int| 0 <= i < split(s, sep).len() ==> !(#[trigger] split(s, sep)[i]).contains(sep),
    decreases s.len(),
{
    let all = split(s, sep);
    if s.len() > 0 {
        let front = s.drop_last();
        let before = split(front, sep);
        law_pieces_make_up_the_text(front, sep);
        assert(front.push(s.last()) =~= s);
        if s.last() == sep {
            assert(all.drop_last() =~= before);
            assert(join(all, seq![sep]) =~= s);
        } else {
            let piece = before.last().push(s.last());
            assert(!piece.contains(sep)) by {
                if piece.contains(sep) {
                    let i = choose|i: int| 0 <= i < piece.len() && piece[i] == sep;
                    assert(before.last()[i] == sep);
                    assert(before[before.len() - 1].contains(sep));
                }
            }
            assert(all.drop_last() =~= before.drop_last());
            assert(join(all, seq![sep]) =~= join(before, seq![sep]).push(s.last()));
        }
    }
}

/// Pieces that do not hold the separator are found again in the text that they make up.
pub proof fn law_joined_is_split(parts: Seq<Seq<char>>, sep: char)
    requires
        parts.len() > 0,
        forall|i: int| 0 <= i < parts.len() ==> !(#[trigger] parts[i]).contains(sep),
    ensures
        split(join(parts, seq![sep]), sep) == parts,
    decreases parts.len(),
{
    if parts.len() == 1 {
        law_split_of_one_piece(parts[0], sep);
        assert(seq![parts[0]] =~= parts);
    } else {
        let front = parts.drop_last();
        assert forall|i: int| 0 <= i < front.len() implies !(#[trigger] front[i]).contains(sep) by {
            assert(front[i] == parts[i]);
        }
        law_joined_is_split(front, sep);
        assert(!parts[parts.len() - 1].contains(sep));
        law_split_at_last(join(front, seq![sep]), sep, parts.last());
        assert(front.push(parts.last()) =~= parts);
    }
}

/// Whether a text holds nothing but white space.
pub open spec fn is_blank(s: Seq<char>) -> bool {
    forall|i: int| 0 <= i < s.len() ==> is_white_space(#[trigger] s[i])
}

/// Whether a text has no white space at its ends.
pub open spec fn is_tight(s: Seq<char>) -> bool {
    s.len() > 0 ==> !is_white_space(s[0]) && !is_white_space(s.last())
}

proof fn lemma_trim_start(front: Seq<char>, s: Seq<char>)
    requires
        is_blank(front),
        s.len() > 0 ==> !is_white_space(s[0]),
    ensures
        trim_start(front + s) == s,
    decreases front.len(),
{
    if front.len() == 0 {
        assert(front + s =~= s);
    } else {
        assert((front + s).drop_first() =~= front.drop_first() + s);
        assert forall|i: int| 0 <= i < front.drop_first().len() implies is_white_space(
            #[trigger] front.drop_first()[i],
        ) by {
            assert(front.drop_first()[i] == front[i + 1]);
        }
        assert(is_white_space(front[0]));
        lemma_trim_start(front.drop_first(), s);
    }
}

proof fn lemma_trim_end(s: Seq<char>, back: Seq<char>)
    requires
        is_blank(back),
        s.len() > 0 ==> !is_white_space(s.last()),
    ensures
        trim_end(s + back) == s,
    decreases back.len(),
{
    if back.len() == 0 {
        assert(s + back =~= s);
    } else {
        assert((s + back).drop_last() =~= s + back.drop_last());
        assert(is_white_space(back[back.len() - 1]));
        lemma_trim_end(s, back.drop_last());
    }
}

/// Trimming takes the white space off both ends and nothing else.
pub proof fn law_trim(front: Seq<char>, s: Seq<char>, back: Seq<char>)
    requires
        is_blank(front),
        is_tight(s),
        is_blank(back),
    ensures
        trim(front + s + back) == s,
{
    if s.len() > 0 {
        assert((s + back)[0] == s[0]);
        assert(front + s + back =~= front + (s + back));
        lemma_trim_start(front, s + back);
        lemma_trim_end(s, back);
    } else {
        let all = front + s + back;
        assert(is_blank(all));
        assert(all + Seq::<char>::empty() =~= all);
        lemma_trim_start(all, Seq::empty());
        assert(s =~= Seq::empty());
        lemma_trim_end(Seq::empty(), Seq::empty());
    }
}

/// A text without white space at its ends is left as it is.
pub proof fn law_tight_is_left(s: Seq<char>)
    requires
        is_tight(s),
    ensures
        trim(s) == s,
{
    law_trim(Seq::empty(), s, Seq::empty());
    assert(Seq::<char>::empty() + s + Seq::<char>::empty() =~= s);
}

/// What is left of a text has no white space at its ends.
pub proof fn law_trimmed_is_tight(s: Seq<char>)
    ensures
        is_tight(trim(s)),
{
    lemma_start_is_off(s);
    lemma_end_is_off(trim_start(s));
}

proof fn lemma_start_is_off(s: Seq<char>)
    ensures
        trim_start(s).len() > 0 ==> !is_white_space(trim_start(s)[0]),
    decreases s.len(),
{
    if s.len() > 0 && is_white_space(s[0]) {
        lemma_start_is_off(s.drop_first());
    }
}

proof fn lemma_end_is_off(s: Seq<char>)
    ensures
        trim_end(s).len() > 0 ==> !is_white_space(trim_end(s).last()) && trim_end(s)[0] == s[0],
    decreases s.len(),
{
    if s.len() > 0 && is_white_space(s.last()) {
        lemma_end_is_off(s.drop_last());
    }
}

/// Of the ASCII characters the space, the tab and the line ends are white space, and no others.
pub proof fn law_ascii_white_space(c: char)
    requires
        (c as u32) < 0x80,
    ensures
        is_white_space(c) <==> c == ' ' || c == '\t' || c == '\n' || c == '\r' || c as u32 == 0xb
            || c as u32 == 0xc,
{
}

/// Making letters small changes capital letters and nothing else: of the letters that are `k`
/// behind the first, the capital one becomes the small one.
pub proof fn law_lower(s: Seq<char>, i: int, k: u32)
    requires
        0 <= i < s.len(),
        k < 26,
    ensures
        lower(s).len() == s.len(),
        s[i] as u32 == 'A' as u32 + k ==> lower(s)[i] as u32 == 'a' as u32 + k,
        !('A' <= s[i] <= 'Z') ==> lower(s)[i] == s[i],
        !('A' <= lower(s)[i] <= 'Z'),
{
}

/// Texts that differ in the case of letters only become the same, and stay so.
pub proof fn law_lower_once(s: Seq<char>)
    ensures
        lower(lower(s)) == lower(s),
{
    assert(lower(lower(s)) =~= lower(s));
}

proof fn lemma_decimal(n: nat, max: nat)
    requires
        n <= max,
    ensures
        decimal(n).len() > 0,
        digits_value(decimal(n), max) == Ok::<nat, IntErrorKind>(n),
        forall|i: int| 0 <= i < decimal(n).len() ==> is_digit(#[trigger] decimal(n)[i]),
        n > 0 ==> decimal(n)[0] != '0',
    decreases n,
{
    if n >= 10 {
        lemma_decimal(n / 10, max);
        let s = decimal(n);
        assert(s.drop_last() =~= decimal(n / 10));
        assert(s[0] == decimal(n / 10)[0]);
        assert forall|i: int| 0 <= i < s.len() implies is_digit(#[trigger] s[i]) by {
            if i < s.len() - 1 {
                assert(s[i] == decimal(n / 10)[i]);
            }
        }
    } else {
        let s = decimal(n);
        assert(s.drop_last() =~= Seq::<char>::empty());
        assert(digits_value(s.drop_last(), max) == Ok::<nat, IntErrorKind>(0));
    }
}

/// A number is read as it was written, is written in digits without zeros in front, and is
/// refused where it is above the greatest that is allowed.
pub proof fn law_number_is_read_back(n: nat, max: nat)
    ensures
        n <= max ==> unsigned_value(decimal(n), max) == Ok::<nat, IntErrorKind>(n),
        n > max ==> unsigned_value(decimal(n), max) == Err::<nat, IntErrorKind>(
            IntErrorKind::PosOverflow,
        ),
        forall|i: int| 0 <= i < decimal(n).len() ==> is_digit(#[trigger] decimal(n)[i]),
        n > 0 ==> decimal(n)[0] != '0',
        decimal(n).len() > 0,
{
    lemma_decimal(n, n);
    assert(is_digit(decimal(n)[0]));
    if n <= max {
        lemma_decimal(n, max);
    } else {
        lemma_above(n, max);
    }
}

proof fn lemma_above(n: nat, max: nat)
    requires
        n > max,
    ensures
        digits_value(decimal(n), max) == Err::<nat, IntErrorKind>(IntErrorKind::PosOverflow),
    decreases n,
{
    let s = decimal(n);
    lemma_decimal(n, n);
    assert(is_digit(s[s.len() - 1]));
    if n >= 10 {
        assert(s.drop_last() =~= decimal(n / 10));
        if n / 10 > max {
            lemma_above(n / 10, max);
        } else {
            lemma_decimal(n / 10, max);
        }
    } else {
        assert(s.drop_last() =~= Seq::<char>::empty());
        assert(digits_value(s.drop_last(), max) == Ok::<nat, IntErrorKind>(0));
    }
}

/// A number with a sign is read as it was written.
pub proof fn law_signed_number_is_read_back(v: i64)
    ensures
        signed_value(decimal_int(v as int)) == Some(v as int),
{
    let s = decimal_int(v as int);
    if v < 0 {
        lemma_decimal((-v) as nat, 0x8000_0000_0000_0000);
        assert(s.subrange(1, s.len() as int) =~= decimal((-v) as nat));
    } else {
        law_number_is_read_back(v as nat, 0x7fff_ffff_ffff_ffff);
        assert(is_digit(decimal(v as nat)[0]));
    }
}

proof fn lemma_nothing_removed(s: Seq<char>, pat: Seq<char>, i: int)
    requires
        0 <= i <= s.len(),
        forall|j: int| i <= j ==> !#[trigger] occurs_at(s, pat, j),
    ensures
        removed_from(s, pat, i) == s.skip(i),
    decreases s.len() - i,
{
    if i < s.len() {
        assert(!occurs_at(s, pat, i));
        lemma_nothing_removed(s, pat, i + 1);
        assert(seq![s[i]] + s.skip(i + 1) =~= s.skip(i));
    } else {
        assert(s.skip(i) =~= Seq::<char>::empty());
    }
}

/// A text in front of one that does not hold it is taken off, and where it does not occur nothing
/// is taken.
pub proof fn law_removed(pat: Seq<char>, rest: Seq<char>)
    requires
        pat.len() > 0,
        forall|j: int| !#[trigger] occurs_at(rest, pat, j),
    ensures
        removed_from(pat + rest, pat, 0) == rest,
        removed_from(rest, pat, 0) == rest,
{
    let s = pat + rest;
    let n = pat.len() as int;
    assert(s.subrange(0, n) =~= pat);
    assert(occurs_at(s, pat, 0));
    assert forall|j: int| n <= j implies !#[trigger] occurs_at(s, pat, j) by {
        assert(!occurs_at(rest, pat, j - n));
        if j + n <= s.len() {
            assert(s.subrange(j, j + n) =~= rest.subrange(j - n, j - n + n));
        }
    }
    lemma_nothing_removed(s, pat, n);
    assert(s.skip(n) =~= rest);
    lemma_nothing_removed(rest, pat, 0);
    assert(rest.skip(0) =~= rest);
}

/// [`text::trimmed`] gives a text without the white space at its ends.
pub proof fn law_trimmed(s: &str, front: Seq<char>, middle: Seq<char>, back: Seq<char>, r: String)
    requires
        call_ensures(text::trimmed, (s,), r),
        s@ == front + middle + back,
        is_blank(front),
        is_tight(middle),
        is_blank(back),
    ensures
        r@ == middle,
{
    law_trim(front, middle, back);
}

/// [`text::split_on`] gives the pieces between the separators: none holds one, and with one between
/// each two they are the text.
pub proof fn law_split_on(s: &str, sep: char, r: Vec<String>)
    requires
        call_ensures(text::split_on, (s, sep), r),
    ensures
        r@.len() >= 1,
        join(text::texts(r@), seq![sep]) == s@,
        forall|i: int| 0 <= i < r@.len() ==> !(#[trigger] r@[i])@.contains(sep),
{
    law_pieces_make_up_the_text(s@, sep);
    assert forall|i: int| 0 <= i < r@.len() implies !(#[trigger] r@[i])@.contains(sep) by {
        assert(text::texts(r@)[i] == r@[i]@);
    }
}

/// [`text::joined`] puts the separator between each two of the parts.
pub proof fn law_joined(parts: &Vec<String>, sep: &str, r: String)
    requires
        call_ensures(text::joined, (parts, sep), r),
    ensures
        parts@.len() == 0 ==> r@.len() == 0,
        parts@.len() == 1 ==> r@ == parts@[0]@,
        parts@.len() == 2 ==> r@ == parts@[0]@ + sep@ + parts@[1]@,
        forall|front: Seq<Seq<char>>, last: Seq<char>|
            front.len() > 0 && text::texts(parts@) == #[trigger] front.push(last) ==> r@ == join(
                front,
                sep@,
            ) + sep@ + last,
{
    let all = text::texts(parts@);
    if parts@.len() >= 1 {
        assert(all[0] == parts@[0]@);
    }
    if parts@.len() == 2 {
        assert(all.last() == parts@[1]@);
        assert(all.drop_last()[0] == all[0]);
        assert(join(all.drop_last(), sep@) == parts@[0]@);
    }
    assert forall|front: Seq<Seq<char>>, last: Seq<char>|
        front.len() > 0 && all == #[trigger] front.push(last) implies r@ == join(front, sep@) + sep@
        + last by {
        assert(front.push(last).drop_last() =~= front);
    }
}

/// [`text::lowered`] makes the capital letters small and leaves all else.
pub proof fn law_lowered(s: &str, r: String, i: int, k: u32)
    requires
        call_ensures(text::lowered, (s,), r),
        0 <= i < s@.len(),
        k < 26,
    ensures
        r@.len() == s@.len(),
        s@[i] as u32 == 'A' as u32 + k ==> r@[i] as u32 == 'a' as u32 + k,
        !('A' <= s@[i] <= 'Z') ==> r@[i] == s@[i],
{
    law_lower(s@, i, k);
}

/// [`text::same_ignoring_case`] says whether two texts are the same but for the case of letters.
pub proof fn law_same_ignoring_case(a: &str, b: &str, r: bool)
    requires
        call_ensures(text::same_ignoring_case, (a, b), r),
    ensures
        a@ == b@ ==> r,
        a@.len() != b@.len() ==> !r,
        r ==> forall|i: int|
            0 <= i < a@.len() && !('A' <= #[trigger] a@[i] <= 'Z') && !('A' <= b@[i] <= 'Z')
                ==> a@[i] == b@[i],
        lower(a@) == b@ ==> r,
{
    law_lower_once(a@);
    assert(lower(a@).len() == a@.len() && lower(b@).len() == b@.len());
    if r {
        assert forall|i: int|
            0 <= i < a@.len() && !('A' <= #[trigger] a@[i] <= 'Z') && !('A' <= b@[i]
                <= 'Z') implies a@[i] == b@[i] by {
            assert(lower(a@)[i] == a@[i]);
            assert(lower(b@)[i] == b@[i]);
        }
    }
}

/// What [`text::int_text`] writes [`text::parse_i64`] reads.
pub proof fn law_integer_text(v: i64, written: String, s: &str, read: Option<i64>)
    requires
        call_ensures(text::int_text, (v,), written),
        s@ == written@,
        call_ensures(text::parse_i64, (s,), read),
    ensures
        read == Some(v),
        0 <= v < 10 ==> written@ == seq![(48 + v) as char],
        v >= 10 ==> written@.last() == (48 + v % 10) as char,
        v < 0 ==> written@[0] == '-',
{
    law_signed_number_is_read_back(v);
}

/// [`text::parse_u16`] reads the number that the digits make up, if it is not too large.
pub proof fn law_parse_u16(s: &str, n: nat, r: Result<u16, IntErrorKind>)
    requires
        call_ensures(text::parse_u16, (s,), r),
        s@ == decimal(n),
    ensures
        r == (if n <= 0xffff {
            Ok::<u16, IntErrorKind>(n as u16)
        } else {
            Err::<u16, IntErrorKind>(IntErrorKind::PosOverflow)
        }),
{
    law_number_is_read_back(n, 0xffff);
}

/// A text that holds something that is no digit is no number.
pub proof fn law_no_number(s: Seq<char>, max: nat, i: int)
    requires
        0 <= i < s.len(),
        !('0' <= s[i] <= '9'),
        i > 0 || s[0] != '+',
    ensures
        !(unsigned_value(s, max) is Ok),
{
    if s[0] == '+' {
        let rest = s.subrange(1, s.len() as int);
        assert(rest[i - 1] == s[i]);
        lemma_no_digits(rest, max, i - 1);
    } else {
        lemma_no_digits(s, max, i);
    }
}

proof fn lemma_no_digits(s: Seq<char>, max: nat, i: int)
    requires
        0 <= i < s.len(),
        !is_digit(s[i]),
    ensures
        !(digits_value(s, max) is Ok),
    decreases s.len(),
{
    if i < s.len() - 1 {
        assert(s.drop_last()[i] == s[i]);
        lemma_no_digits(s.drop_last(), max, i);
    }
}

/// [`text::concat`] puts one text behind the other, and [`text::remove_all`] takes the first off
/// again where the second does not hold it.
pub proof fn law_concat(a: &str, b: &str, both: String, s: &str, rest: String)
    requires
        call_ensures(text::concat, (a, b), both),
        a@.len() > 0,
        forall|j: int| !#[trigger] occurs_at(b@, a@, j),
        s@ == both@,
        call_ensures(text::remove_all, (s, a), rest),
    ensures
        both@.len() == a@.len() + b@.len(),
        both@.take(a@.len() as int) == a@,
        rest@ == b@,
{
    law_removed(a@, b@);
    assert(both@.take(a@.len() as int) =~= a@);
}

} // verus!
