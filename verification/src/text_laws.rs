//! What holds of texts and numbers in texts.

use vstd::prelude::*;
use vstd::string::*;
use vstd::utf8::*;
use crate::text::{bytes_le, decimal_text, digit_char, holds_text, joined, no_trailing_slash,
    occurs_at, opt_text, str_views, stripped, text_le, trimmed, trimmed_end, trimmed_start,
    white_space};

verus! {

/// The number that decimal digits stand for.
pub open spec fn digits_value(s: Seq<char>) -> int
    decreases s.len(),
{
    if s.len() == 0 {
        0
    } else {
        10 * digits_value(s.drop_last()) + (s.last() as u32 as int - 48)
    }
}

/// A number in decimal reads back as the number. It consists of digits, and begins with
/// a zero only where it is zero.
pub proof fn law_decimal_reads_back(n: nat)
    ensures
        digits_value(decimal_text(n)) == n,
        decimal_text(n).len() > 0,
        forall|i: int|
            0 <= i < decimal_text(n).len() ==> 48 <= #[trigger] decimal_text(n)[i] as u32 <= 57,
        decimal_text(n)[0] as u32 == 48 ==> n == 0,
    decreases n,
{
    let s = decimal_text(n);
    assert(digit_char(n % 10) as u32 == 48 + n % 10);
    if n < 10 {
        assert(s.drop_last() =~= Seq::<char>::empty());
        assert(digits_value(s.drop_last()) == 0);
    } else {
        law_decimal_reads_back(n / 10);
        assert(s.drop_last() =~= decimal_text(n / 10));
        assert forall|i: int| 0 <= i < s.len() implies 48 <= #[trigger] s[i] as u32 <= 57 by {
            if i < s.len() - 1 {
                assert(s[i] == decimal_text(n / 10)[i]);
            }
        }
        assert(s[0] == decimal_text(n / 10)[0]);
    }
}

/// Two numbers with the same text are the same number.
pub proof fn law_decimal_is_injective(a: nat, b: nat)
    requires
        decimal_text(a) == decimal_text(b),
    ensures
        a == b,
{
    law_decimal_reads_back(a);
    law_decimal_reads_back(b);
}

/// White space is what Unicode calls so.
pub proof fn law_white_space_by_code(c: char)
    ensures
        white_space(c) <==> {
            let n = c as u32;
            ||| 0x9 <= n <= 0xd
            ||| n == 0x20 || n == 0x85 || n == 0xa0 || n == 0x1680
            ||| 0x2000 <= n <= 0x200a
            ||| n == 0x2028 || n == 0x2029 || n == 0x202f || n == 0x205f || n == 0x3000
        },
{
}

/// All characters are white space.
pub open spec fn blank(s: Seq<char>) -> bool {
    forall|i: int| 0 <= i < s.len() ==> white_space(#[trigger] s[i])
}

proof fn lemma_start_is_blank(s: Seq<char>)
    ensures
        trimmed_start(s).len() <= s.len(),
        blank(s.take(s.len() - trimmed_start(s).len())),
        s.skip(s.len() - trimmed_start(s).len()) == trimmed_start(s),
        trimmed_start(s).len() > 0 ==> !white_space(trimmed_start(s)[0]),
    decreases s.len(),
{
    if s.len() > 0 && white_space(s[0]) {
        let t = s.drop_first();
        lemma_start_is_blank(t);
        let k = s.len() - trimmed_start(s).len();
        assert forall|i: int| 0 <= i < k implies white_space(#[trigger] s.take(k)[i]) by {
            if i > 0 {
                assert(t.take(k - 1)[i - 1] == s[i]);
            }
        }
        assert(s.skip(k) =~= t.skip(k - 1));
    } else {
        assert(s.take(0).len() == 0);
        assert(s.skip(0) =~= s);
    }
}

proof fn lemma_end_is_blank(s: Seq<char>)
    ensures
        trimmed_end(s).len() <= s.len(),
        blank(s.skip(trimmed_end(s).len() as int)),
        s.take(trimmed_end(s).len() as int) == trimmed_end(s),
        trimmed_end(s).len() > 0 ==> !white_space(trimmed_end(s).last()),
    decreases s.len(),
{
    if s.len() > 0 && white_space(s.last()) {
        let t = s.drop_last();
        lemma_end_is_blank(t);
        let k = trimmed_end(s).len() as int;
        assert forall|i: int| 0 <= i < s.skip(k).len() implies white_space(
            #[trigger] s.skip(k)[i],
        ) by {
            if k + i < t.len() {
                assert(t.skip(k)[i] == s[k + i]);
            }
        }
        assert(s.take(k) =~= t.take(k));
    } else {
        assert(s.skip(s.len() as int).len() == 0);
        assert(s.take(s.len() as int) =~= s);
    }
}

/// Trimming takes off white space at both ends, all of it and nothing else.
pub proof fn law_trimming_takes_off_white_space(s: Seq<char>)
    ensures
        exists|a: Seq<char>, b: Seq<char>|
            blank(a) && blank(b) && s == #[trigger] (a + trimmed(s) + b),
        trimmed(s).len() > 0 ==> !white_space(trimmed(s)[0]) && !white_space(trimmed(s).last()),
{
    let m = trimmed_start(s);
    lemma_start_is_blank(s);
    lemma_end_is_blank(m);
    let t = trimmed(s);
    let a = s.take(s.len() - m.len());
    let b = m.skip(t.len() as int);
    assert(m =~= t + b);
    assert(s =~= a + m);
    assert(s =~= a + t + b);
    if t.len() > 0 {
        assert(t[0] == m[0]);
    }
}

/// A text loses the slashes at its end, all of them and nothing else.
pub proof fn law_trailing_slashes_go(s: Seq<char>)
    ensures
        no_trailing_slash(s.push('/')) == no_trailing_slash(s),
        s.len() > 0 && s.last() != '/' ==> no_trailing_slash(s) == s,
        s.len() == 0 ==> no_trailing_slash(s) == s,
        no_trailing_slash(s).len() > 0 ==> no_trailing_slash(s).last() != '/',
        no_trailing_slash(s).is_prefix_of(s),
        forall|i: int| no_trailing_slash(s).len() <= i < s.len() ==> #[trigger] s[i] == '/',
    decreases s.len(),
{
    assert(s.push('/').drop_last() =~= s);
    if s.len() > 0 && s.last() == '/' {
        let t = s.drop_last();
        law_trailing_slashes_go(t);
        assert forall|i: int| no_trailing_slash(s).len() <= i < s.len() implies #[trigger] s[i]
            == '/' by {
            if i < t.len() {
                assert(t[i] == s[i]);
            }
        }
    }
}

/// A text is found exactly where it stands between two others.
pub proof fn law_text_is_found_where_it_stands(a: Seq<char>, needle: Seq<char>, b: Seq<char>)
    ensures
        holds_text(a + needle + b, needle),
{
    let hay = a + needle + b;
    assert(hay.subrange(a.len() as int, a.len() as int + needle.len()) =~= needle);
    assert(occurs_at(hay, needle, a.len() as int));
}

/// A text that is found stands between two others.
pub proof fn law_found_text_stands_somewhere(hay: Seq<char>, needle: Seq<char>)
    requires
        holds_text(hay, needle),
    ensures
        exists|a: Seq<char>, b: Seq<char>| hay == #[trigger] (a + needle + b),
{
    let i = choose|i: int| occurs_at(hay, needle, i);
    let a = hay.take(i);
    let b = hay.skip(i + needle.len());
    assert(hay =~= a + needle + b);
}

/// What follows a prefix is what stood behind it.
pub proof fn law_prefix_comes_off(prefix: Seq<char>, rest: Seq<char>, s: Seq<char>)
    ensures
        stripped(prefix + rest, prefix) == Some(rest),
        stripped(s, prefix) matches Some(r) ==> s == prefix + r,
{
    assert(prefix.is_prefix_of(prefix + rest));
    assert((prefix + rest).skip(prefix.len() as int) =~= rest);
    if stripped(s, prefix) is Some {
        assert(s =~= prefix + s.skip(prefix.len() as int));
    }
}

/// Joined lists are joined by the separator; nothing stands before the first item or
/// after the last.
pub proof fn law_joining_joins(a: Seq<Seq<char>>, b: Seq<Seq<char>>, x: Seq<char>, sep: Seq<char>)
    requires
        a.len() > 0,
        b.len() > 0,
    ensures
        joined(Seq::<Seq<char>>::empty(), sep).len() == 0,
        joined(seq![x], sep) == x,
        joined(a + b, sep) == joined(a, sep) + sep + joined(b, sep),
    decreases b.len(),
{
    assert((a + b).drop_last() =~= a + b.drop_last());
    assert((a + b).last() == b.last());
    if b.len() == 1 {
        assert(a + b.drop_last() =~= a);
        assert(joined(a + b, sep) == joined(a, sep) + sep + b[0]);
    } else {
        law_joining_joins(a, b.drop_last(), x, sep);
        assert(joined(a + b, sep) =~= joined(a, sep) + sep + joined(b, sep));
    }
}

/// Byte strings are ordered by the first byte in which they differ, and one that goes on
/// comes after one that ends.
pub proof fn law_first_difference_decides(
    p: Seq<u8>,
    x: u8,
    y: u8,
    a: Seq<u8>,
    b: Seq<u8>,
)
    requires
        x != y,
    ensures
        bytes_le(p + seq![x] + a, p + seq![y] + b) <==> x < y,
        bytes_le(p, p + a),
        a.len() > 0 ==> !bytes_le(p + a, p),
    decreases p.len(),
{
    let l = p + seq![x] + a;
    let r = p + seq![y] + b;
    if p.len() == 0 {
        assert(l[0] == x && r[0] == y);
        assert(p + a =~= a);
    } else {
        let q = p.drop_first();
        law_first_difference_decides(q, x, y, a, b);
        assert(l.drop_first() =~= q + seq![x] + a);
        assert(r.drop_first() =~= q + seq![y] + b);
        assert(l[0] == p[0] && r[0] == p[0]);
        assert((p + a).drop_first() =~= q + a);
        assert((p + a)[0] == p[0]);
    }
}

/// Texts are ordered as their encodings are.
pub proof fn law_texts_are_ordered_by_bytes(a: Seq<char>, b: Seq<char>)
    ensures
        text_le(a, b) <==> bytes_le(encode_utf8(a), encode_utf8(b)),
{
}

/// An optional text is its characters, where it is there.
pub proof fn law_optional_text_is_its_characters(s: Option<String>)
    ensures
        s matches Some(t) ==> opt_text(s) == Some(t@),
        s is None <==> opt_text(s) is None,
{
}

/// Texts stand for their characters, in order.
pub proof fn law_texts_stand_for_their_characters(parts: Seq<&str>, i: int)
    requires
        0 <= i < parts.len(),
    ensures
        str_views(parts).len() == parts.len(),
        str_views(parts)[i] == parts[i]@,
{
}

} // verus!
