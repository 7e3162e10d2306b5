//! Laws on texts, numbers, times and the cipher.

use vstd::prelude::*;
use vstd::utf8::{encode_utf8, encode_utf8_decode_utf8, encode_utf8_valid_utf8};

use crate::clock::{
    are_clocks_of, are_minutes_of, clock_text, is_clock, is_local_time, is_minute, minute_text,
    shown_time, uptime_text,
};
use crate::commands::{is_blank, lemma_lead_goes};
use crate::format::{decimal, decimal2, digits_value, joined, padded, usize_value};
use crate::order::{before, parts_at};
use crate::protocol::{
    xored, DEFAULT_PORT, DEFAULT_ROOM, MAX_MESSAGE_BYTES, PROTOCOL_VERSION, XOR_KEY,
};
use crate::text::{
    begins_with, first_match, is_alnum, is_control_code, is_space, leading_word, lemma_first_match,
    lemma_match_in_range, lemma_word_len, occurs_at, pieces, stripped_end, stripped_start, text_of,
    trimmed_start, without_prefix,
};

verus! {

// ---------------------------------------------------------------------------
// Characters
// ---------------------------------------------------------------------------

/// The blanks of a line are white space, what is printed in ASCII is not, and
/// the white space beyond ASCII is that of Unicode.
pub proof fn law_what_is_white_space(c: char)
    ensures
        c <= '\u{7f}' ==> (is_space(c) <==> c == ' ' || c == '\t' || c == '\n' || c == '\r' || c
            == '\u{b}' || c == '\u{c}'),
        c == '\u{85}' || c == '\u{a0}' || c == '\u{1680}' || c == '\u{2028}' || c == '\u{2029}'
            || c == '\u{202f}' || c == '\u{205f}' || c == '\u{3000}' || ('\u{2000}' <= c && c
            <= '\u{200a}') ==> is_space(c),
        '\u{7f}' < c && c < '\u{85}' || '\u{85}' < c && c < '\u{a0}' || '\u{a0}' < c && c
            < '\u{1680}' || '\u{1680}' < c && c < '\u{2000}' || '\u{200a}' < c && c < '\u{2028}'
            || '\u{2029}' < c && c < '\u{202f}' || '\u{202f}' < c && c < '\u{205f}' || '\u{205f}'
            < c && c < '\u{3000}' || c > '\u{3000}' ==> !is_space(c),
{
}

/// Control codes are what comes before the space, the delete character and what
/// follows it up to the no-break space. Letters and digits are those of ASCII.
pub proof fn law_what_is_a_control_code(c: char)
    ensures
        is_control_code(c) <==> c < ' ' || '\u{7e}' < c && c < '\u{a0}',
        is_alnum(c) ==> !is_space(c) && !is_control_code(c) && c <= 'z',
        c == 'a' || c == 'm' || c == 'z' || c == 'A' || c == 'M' || c == 'Z' || c == '0' || c == '5'
            || c == '9' ==> is_alnum(c),
        c < '0' || '9' < c && c < 'A' || 'Z' < c && c < 'a' || 'z' < c ==> !is_alnum(c),
        '0' <= c && c <= '9' || 'A' <= c && c <= 'Z' || 'a' <= c && c <= 'z' ==> is_alnum(c),
{
}

// ---------------------------------------------------------------------------
// Parts of texts
// ---------------------------------------------------------------------------

/// A text begins with another exactly where it is that text and something more;
/// what follows the prefix is that something.
pub proof fn law_prefixes(s: Seq<char>, p: Seq<char>, r: Seq<char>)
    ensures
        without_prefix(s, p) == Some(r) <==> s == p + r,
        begins_with(s, p) <==> without_prefix(s, p) is Some,
{
    if s == p + r {
        assert(s.take(p.len() as int) =~= p);
        assert(s.skip(p.len() as int) =~= r);
    }
    if begins_with(s, p) {
        assert(s =~= s.take(p.len() as int) + s.skip(p.len() as int));
    }
}

/// A text is first found in another after the shortest part that it follows, and
/// it is found wherever it is there.
pub proof fn law_finding(a: Seq<char>, p: Seq<char>, b: Seq<char>)
    ensures
        ({
            let s = a + p + b;
            &&& first_match(s, p) matches Some(i) && 0 <= i <= a.len() && i + p.len() <= s.len()
                && s.subrange(i, i + p.len()) == p
            &&& forall|j: int|
                #![trigger s.subrange(j, j + p.len())]
                0 <= j < first_match(s, p).unwrap() ==> s.subrange(j, j + p.len()) != p
        }),
{
    let s = a + p + b;
    let n = a.len() as int;
    assert(s.subrange(n, n + p.len()) =~= p);
    assert(occurs_at(s, p, n));
    let i = lemma_least(s, p, n);
    lemma_first_match(s, p, i);
    assert forall|j: int| #![trigger s.subrange(j, j + p.len())] 0 <= j < i implies s.subrange(
        j,
        j + p.len(),
    ) != p by {
        assert(!occurs_at(s, p, j));
    }
}

proof fn lemma_least(s: Seq<char>, p: Seq<char>, n: int) -> (i: int)
    requires
        occurs_at(s, p, n),
    ensures
        0 <= i <= n,
        occurs_at(s, p, i),
        forall|j: int| 0 <= j < i ==> !#[trigger] occurs_at(s, p, j),
    decreases n,
{
    if exists|j: int| 0 <= j < n && #[trigger] occurs_at(s, p, j) {
        let j = choose|j: int| 0 <= j < n && #[trigger] occurs_at(s, p, j);
        lemma_least(s, p, j)
    } else {
        n
    }
}

/// What is found is there.
pub proof fn law_what_is_found_is_there(s: Seq<char>, p: Seq<char>)
    ensures
        first_match(s, p) matches Some(i) ==> 0 <= i && i + p.len() <= s.len() && s == s.take(i) + p
            + s.skip(i + p.len()),
{
    if let Some(i) = first_match(s, p) {
        lemma_match_in_range(s, p);
        assert(occurs_at(s, p, i));
        assert(s =~= s.take(i) + s.subrange(i, i + p.len()) + s.skip(i + p.len()));
    }
}

/// A text is its pieces with the separator between them, and no piece holds the
/// separator.
pub proof fn law_pieces_make_the_text(s: Seq<char>, c: char)
    ensures
        joined(pieces(s, c), seq![c]) == s,
        pieces(s, c).len() > 0,
        forall|i: int| 0 <= i < pieces(s, c).len() ==> !(#[trigger] pieces(s, c)[i]).contains(c),
    decreases s.len(),
{
    let sep = seq![c];
    let ps = pieces(s, c);
    if s.len() == 0 {
        assert(ps =~= seq![Seq::<char>::empty()]);
    } else {
        let fewer = pieces(s.drop_last(), c);
        law_pieces_make_the_text(s.drop_last(), c);
        let x = s.last();
        if x == c {
            let none = Seq::<char>::empty();
            assert(ps == fewer.push(none));
            assert(ps.drop_last() =~= fewer);
            assert(joined(ps, sep) =~= joined(fewer, sep) + sep + none);
            assert(joined(fewer, sep) + sep + none =~= s);
        } else {
            let last = fewer.last().push(x);
            assert(ps == fewer.drop_last().push(last));
            assert(ps.drop_last() =~= fewer.drop_last());
            assert(!fewer[fewer.len() - 1].contains(c));
            assert(!last.contains(c)) by {
                if last.contains(c) {
                    let i = last.index_of(c);
                    if i < fewer.last().len() {
                        assert(fewer.last()[i] == c);
                    }
                }
            }
            assert forall|i: int| 0 <= i < ps.len() implies !(#[trigger] ps[i]).contains(c) by {
                if i < fewer.len() - 1 {
                    assert(ps[i] == fewer[i]);
                }
            }
            if fewer.len() == 1 {
                assert(joined(ps, sep) == ps[0]);
                assert(joined(fewer, sep) == fewer[0]);
                assert(s.drop_last() == fewer[0]);
                assert(s =~= fewer[0].push(x));
            } else {
                assert(joined(ps, sep) == joined(fewer.drop_last(), sep) + sep + last);
                assert(joined(fewer, sep) == joined(fewer.drop_last(), sep) + sep + fewer.last());
                assert(joined(fewer.drop_last(), sep) + sep + last =~= (joined(
                    fewer.drop_last(),
                    sep,
                ) + sep + fewer.last()).push(x));
                assert(s =~= s.drop_last().push(x));
            }
        }
    }
}

/// Stripping the end of a text takes all of a character there, and nothing else.
pub proof fn law_stripping_the_end(s: Seq<char>, c: char, n: nat)
    requires
        s.len() > 0 ==> s.last() != c,
    ensures
        stripped_end(s + Seq::new(n, |i: int| c), c) == s,
    decreases n,
{
    let r = Seq::new(n, |i: int| c);
    if n == 0 {
        assert(s + r =~= s);
    } else {
        let q = Seq::new((n - 1) as nat, |i: int| c);
        assert((s + r).drop_last() =~= s + q);
        law_stripping_the_end(s, c, (n - 1) as nat);
    }
}

/// Stripping the start of a text takes all of a character there, and nothing
/// else.
pub proof fn law_stripping_the_start(s: Seq<char>, c: char, n: nat)
    requires
        s.len() > 0 ==> s.first() != c,
    ensures
        stripped_start(Seq::new(n, |i: int| c) + s, c) == s,
    decreases n,
{
    let r = Seq::new(n, |i: int| c);
    if n == 0 {
        assert(r + s =~= s);
    } else {
        let q = Seq::new((n - 1) as nat, |i: int| c);
        assert((r + s).drop_first() =~= q + s);
        law_stripping_the_start(s, c, (n - 1) as nat);
    }
}

/// The first word of a text is what stands before the white space after it.
pub proof fn law_first_words(lead: Seq<char>, w: Seq<char>, rest: Seq<char>)
    requires
        is_blank(lead),
        w.len() > 0,
        forall|i: int| 0 <= i < w.len() ==> !is_space(#[trigger] w[i]),
        rest.len() > 0 ==> is_space(rest[0]),
    ensures
        leading_word(lead + w + rest) == Some(w),
        leading_word(lead) is None,
{
    assert(lead + w + rest =~= lead + (w + rest));
    lemma_lead_goes(lead, w + rest);
    let none = Seq::<char>::empty();
    lemma_lead_goes(lead, none);
    assert(lead + none =~= lead);
    let t = w + rest;
    assert(!is_space(w[0]));
    assert(t.first() == w[0]);
    assert(trimmed_start(t) == t);
    assert forall|k: int| 0 <= k < w.len() implies !is_space(t[k]) by {
        assert(t[k] == w[k]);
    }
    lemma_word_len(t, w.len() as int);
    assert(t.take(w.len() as int) =~= w);
}

/// A padded text is the text with spaces after it, up to the width; a text that
/// is as long is kept.
pub proof fn law_padding(s: Seq<char>, width: nat)
    ensures
        padded(s, width).len() == if s.len() < width {
            width
        } else {
            s.len()
        },
        padded(s, width).take(s.len() as int) == s,
        forall|i: int| s.len() <= i < padded(s, width).len() ==> padded(s, width)[i] == ' ',
{
    assert(padded(s, width).take(s.len() as int) =~= s);
}

// ---------------------------------------------------------------------------
// Numbers and times
// ---------------------------------------------------------------------------

/// A number in decimal is its tens in decimal, then its last digit.
pub proof fn law_decimals_grow_by_a_digit(n: nat, d: nat)
    requires
        d < 10,
    ensures
        decimal(d).len() == 1,
        decimal(d)[0] as nat == '0' as nat + d,
        n > 0 ==> decimal(10 * n + d) == decimal(n) + decimal(d),
        decimal2(d) == seq!['0'] + decimal(d),
        n > 0 ==> decimal2(10 * n + d) == decimal(10 * n + d),
{
    if n > 0 {
        assert((10 * n + d) / 10 == n && (10 * n + d) % 10 == d);
        assert(decimal(10 * n + d) =~= decimal(n) + decimal(d));
    }
}

/// A text reads as a number exactly where it is digits, with or without a plus
/// sign in front, and the number is not too large.
pub proof fn law_numbers_are_read(s: Seq<char>, d: char)
    ensures
        usize_value(s) is Some ==> s.len() > 0 && (s[0] == '+' || '0' <= s[0] && s[0] <= '9') && (
        forall|i: int| 1 <= i < s.len() ==> '0' <= #[trigger] s[i] && s[i] <= '9'),
        s.len() > 0 && (forall|i: int| 0 <= i < s.len() ==> '0' <= #[trigger] s[i] && s[i] <= '9')
            && digits_value(s) <= usize::MAX ==> usize_value(s) == Some(digits_value(s))
            && usize_value(seq!['+'] + s) == Some(digits_value(s)),
        digits_value(s) > usize::MAX && s.len() > 0 && s[0] != '+' ==> usize_value(s) is None,
        '0' <= d && d <= '9' ==> digits_value(s.push(d)) == 10 * digits_value(s) + (d as nat - 48),
        digits_value(Seq::empty()) == 0,
{
    assert(s.push(d).drop_last() =~= s);
    let p = seq!['+'] + s;
    assert(p.skip(1) =~= s);
    if usize_value(s) is Some && s.len() > 0 && s[0] == '+' {
        let t = s.skip(1);
        assert forall|i: int| 1 <= i < s.len() implies '0' <= #[trigger] s[i] && s[i] <= '9' by {
            assert(t[i - 1] == s[i]);
            assert(crate::text::is_digit(t[i - 1]));
        }
    }
    if usize_value(s) is Some && s.len() > 0 && s[0] != '+' {
        assert(crate::text::is_digit(s[0]));
        assert forall|i: int| 1 <= i < s.len() implies '0' <= #[trigger] s[i] && s[i] <= '9' by {
            assert(crate::text::is_digit(s[i]));
        }
    }
}

/// A duration of so many hours, minutes and seconds is shown as them, two digits
/// each; the hours take more where they need them.
pub proof fn law_durations_are_shown(h: nat, m: nat, s: nat)
    requires
        m < 60,
        s < 60,
    ensures
        uptime_text(3600 * h + 60 * m + s) == decimal2(h) + ":"@ + decimal2(m) + ":"@ + decimal2(s),
{
    let t: nat = 3600 * h + 60 * m + s;
    assert(t / 3600 == h);
    assert(t % 3600 == 60 * m + s);
    assert((60 * m + s) / 60 == m);
    assert(t % 60 == s) by {
        assert(t == 60 * (60 * h + m) + s);
    }
}

/// A time of day is written with two digits each for hours, minutes and seconds.
pub proof fn law_times_of_day(h: nat, m: nat, s: nat)
    requires
        h < 24,
        m < 60,
        s < 60,
    ensures
        is_clock(clock_text(h, m, s)),
        is_minute(minute_text(h, m)),
        ({
            let t = clock_text(h, m, s);
            let z = '0' as nat;
            &&& t.len() == 8
            &&& t[0] as nat == z + h / 10 && t[1] as nat == z + h % 10
            &&& t[2] == ':'
            &&& t[3] as nat == z + m / 10 && t[4] as nat == z + m % 10
            &&& t[5] == ':'
            &&& t[6] as nat == z + s / 10 && t[7] as nat == z + s % 10
        }),
        minute_text(h, m) == clock_text(h, m, s).take(5),
{
    reveal_strlit(":");
    lemma_two_digits(h);
    lemma_two_digits(m);
    lemma_two_digits(s);
    assert(minute_text(h, m) =~= clock_text(h, m, s).take(5));
}

proof fn lemma_two_digits(n: nat)
    requires
        n < 100,
    ensures
        decimal2(n).len() == 2,
        decimal2(n)[0] as nat == '0' as nat + n / 10,
        decimal2(n)[1] as nat == '0' as nat + n % 10,
{
    law_decimals_grow_by_a_digit(n / 10, n % 10);
    if n >= 10 {
        law_decimals_grow_by_a_digit(0, n / 10);
        assert(n == 10 * (n / 10) + n % 10);
    }
}

/// A time is shown as it is where the calendar has it, and as the epoch beyond.
pub proof fn law_times_are_shown(ts: i64)
    ensures
        -8334601228800 <= ts <= 8210266876799 ==> shown_time(ts) == ts,
        !(-8334601228800 <= ts <= 8210266876799) ==> shown_time(ts) == 0,
{
}

/// A list of times is shown one by one: each as hours, minutes and seconds, or
/// as hours and minutes, of the local time that it stands for.
pub proof fn law_lists_of_times(times: Seq<i64>, stamps: Seq<Seq<char>>, i: int)
    requires
        0 <= i < times.len(),
    ensures
        are_clocks_of(times, stamps) ==> stamps.len() == times.len() && is_clock(stamps[i])
            && is_local_time(shown_time(times[i]), "%H:%M:%S"@, stamps[i]),
        are_minutes_of(times, stamps) ==> stamps.len() == times.len() && is_minute(stamps[i])
            && is_local_time(shown_time(times[i]), "%H:%M"@, stamps[i]),
{
}

/// The port and the version that the two sides agree on, and the room in which
/// everyone starts.
pub proof fn law_the_defaults()
    ensures
        DEFAULT_PORT == 8080,
        PROTOCOL_VERSION == 1,
        DEFAULT_ROOM@ == "general"@,
        MAX_MESSAGE_BYTES == 8192,
{
}

// ---------------------------------------------------------------------------
// Order
// ---------------------------------------------------------------------------

/// Texts are in the order of the first character in which they differ, and a
/// text comes before what begins with it.
pub proof fn law_the_order_of_texts(p: Seq<char>, c: char, a: Seq<char>, d: char, b: Seq<char>)
    ensures
        before(p, p.push(c) + a),
        !before(p.push(c) + a, p),
        c < d ==> before(p.push(c) + a, p.push(d) + b),
        c < d ==> !before(p.push(d) + b, p.push(c) + a),
{
    let s = p.push(c) + a;
    let t = p.push(d) + b;
    let n = p.len() as int;
    assert(parts_at(p, s, n));
    crate::order::lemma_before_irreflexive(p);
    if before(s, p) {
        crate::order::lemma_before_transitive(p, s, p);
    }
    if c < d {
        assert(s[n] == c && t[n] == d);
        assert(parts_at(s, t, n));
        if before(t, s) {
            crate::order::lemma_before_transitive(s, t, s);
            crate::order::lemma_before_irreflexive(s);
        }
    }
}

// ---------------------------------------------------------------------------
// The cipher
// ---------------------------------------------------------------------------

/// The cipher keeps the number of bytes, and combines each with the byte of the
/// key that is due at its place. The key is an ASCII text of twenty-two
/// characters.
pub proof fn law_the_cipher_is_keyed(data: Seq<u8>, i: int)
    requires
        0 <= i < data.len(),
    ensures
        xored(data).len() == data.len(),
        xored(data)[i] == data[i] ^ XOR_KEY@[i % 22],
        ({
            let key = "VectorcomSecureKey2025"@;
            &&& key.len() == 22
            &&& forall|k: int| 0 <= k < 22 ==> #[trigger] XOR_KEY@[k] as nat == key[k] as nat
        }),
{
    reveal_strlit("VectorcomSecureKey2025");
}

/// What is enciphered at some place does not depend on what stands around it.
pub proof fn law_the_cipher_goes_byte_by_byte(a: Seq<u8>, b: Seq<u8>, i: int)
    requires
        0 <= i < a.len(),
        i < b.len(),
    ensures
        xored(a)[i] == xored(b)[i] <==> a[i] == b[i],
{
    let x = a[i];
    let y = b[i];
    let k = XOR_KEY@[i % 22];
    assert(x ^ k == y ^ k <==> x == y) by (bit_vector);
}

/// Bytes that hold a text are read as that text.
pub proof fn law_texts_are_decoded(text: Seq<char>)
    ensures
        text_of(encode_utf8(text)) == text,
{
    encode_utf8_valid_utf8(text);
    encode_utf8_decode_utf8(text);
}

} // verus!
