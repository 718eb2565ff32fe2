//! The JSON text a bearer token carries: the claims framed as
//! `{"sub":"<uuid>","email":"<escaped>","role":"<role>","exp":<int>,"iat":<int>}`
//! (the field order and escaping `serde_json` uses), and its parser.

use vstd::prelude::*;
use super::jwt::{role_name, Claims, Role};
use vstd::arithmetic::div_mod::lemma_fundamental_div_mod;
use crate::text::{chars_of, push_char, push_str, str_eq};

verus! {

/// The decimal digit character for `d` (0 to 9).
pub open spec fn digit_char(d: int) -> char {
    (d + 48) as char
}

/// The lowercase hexadecimal digit character for `d` (0 to 15).
pub open spec fn hex_char(d: int) -> char {
    if d < 10 {
        (d + 48) as char
    } else {
        (d + 87) as char
    }
}

/// The `n` lowest hexadecimal digits of `v`, most significant first.
pub open spec fn hex_digits(v: nat, n: nat) -> Seq<char>
    decreases n,
{
    if n == 0 {
        Seq::empty()
    } else {
        hex_digits(v / 16, (n - 1) as nat).push(hex_char((v % 16) as int))
    }
}

/// The hyphenated lowercase text of a UUID: 32 hex digits in groups of
/// 8-4-4-4-12.
pub open spec fn uuid_text(v: u128) -> Seq<char> {
    let h = hex_digits(v as nat, 32);
    h.subrange(0, 8) + seq!['-'] + h.subrange(8, 12) + seq!['-'] + h.subrange(12, 16) + seq!['-']
        + h.subrange(16, 20) + seq!['-'] + h.subrange(20, 32)
}

/// `Uuid::from_u128(v).hyphenated().to_string()`: the hyphenated lowercase
/// text of the UUID with bits `v`.
#[verifier::external_body]
fn uuid_to_text(v: u128) -> (r: String)
    ensures
        r@ == uuid_text(v),
{
    uuid::Uuid::from_u128(v).hyphenated().to_string()
}


/// The decimal digits of `n`, most significant first, without leading zeros.
pub open spec fn dec_digits(n: nat) -> Seq<char>
    decreases n,
{
    if n < 10 {
        seq![digit_char(n as int)]
    } else {
        dec_digits(n / 10).push(digit_char((n % 10) as int))
    }
}

/// The decimal text of an integer, with a leading `-` when negative.
pub open spec fn int_text(i: int) -> Seq<char> {
    if i < 0 {
        seq!['-'] + dec_digits((-i) as nat)
    } else {
        dec_digits(i as nat)
    }
}

/// How one character is written inside a JSON string: quote and backslash
/// escaped, the short escapes for backspace, form feed, newline, return and
/// tab, `\u00XX` (lowercase hex) for the other control characters, and every
/// other character as itself.
pub open spec fn escape_char(c: char) -> Seq<char> {
    if c == '"' {
        seq!['\\', '"']
    } else if c == '\\' {
        seq!['\\', '\\']
    } else if c == '\u{8}' {
        seq!['\\', 'b']
    } else if c == '\u{c}' {
        seq!['\\', 'f']
    } else if c == '\n' {
        seq!['\\', 'n']
    } else if c == '\r' {
        seq!['\\', 'r']
    } else if c == '\t' {
        seq!['\\', 't']
    } else if (c as u32) < 0x20 {
        seq!['\\', 'u', '0', '0', hex_char((c as u32 / 16) as int), hex_char((c as u32 % 16) as int)]
    } else {
        seq![c]
    }
}

/// The escaped form of a string's characters inside a JSON string literal.
pub open spec fn escape(s: Seq<char>) -> Seq<char>
    decreases s.len(),
{
    if s.len() == 0 {
        Seq::empty()
    } else {
        escape_char(s[0]) + escape(s.drop_first())
    }
}

/// The JSON text of a set of claims.
pub open spec fn claims_json(c: Claims) -> Seq<char> {
    "{\"sub\":\""@ + uuid_text(c.sub) + "\",\"email\":\""@ + escape(c.email@) + "\",\"role\":\""@
        + role_name(c.role) + "\",\"exp\":"@ + int_text(c.exp as int) + ",\"iat\":"@ + int_text(
        c.iat as int,
    ) + "}"@
}

fn digit(d: u64) -> (c: char)
    requires
        d < 10,
    ensures
        c == digit_char(d as int),
{
    ((d as u8) + 48) as char
}

fn hex(d: u32) -> (c: char)
    requires
        d < 16,
    ensures
        c == hex_char(d as int),
{
    if d < 10 {
        ((d as u8) + 48) as char
    } else {
        ((d as u8) + 87) as char
    }
}

fn push_dec(s: &mut String, n: u64)
    ensures
        final(s)@ == old(s)@ + dec_digits(n as nat),
    decreases n,
{
    if n >= 10 {
        push_dec(s, n / 10);
    }
    push_char(s, digit(n % 10));
    proof {
        if n < 10 {
            assert(n % 10 == n);
        }
    }
    assert(s@ =~= old(s)@ + dec_digits(n as nat));
}

fn push_int(s: &mut String, i: i64)
    ensures
        final(s)@ == old(s)@ + int_text(i as int),
{
    if i < 0 {
        push_char(s, '-');
        let m: i128 = -(i as i128);
        push_dec(s, m as u64);
        assert(s@ =~= old(s)@ + int_text(i as int));
    } else {
        push_dec(s, i as u64);
    }
}

proof fn lemma_escape_push(s: Seq<char>, c: char)
    ensures
        escape(s.push(c)) == escape(s) + escape_char(c),
    decreases s.len(),
{
    if s.len() == 0 {
        assert(s.push(c).drop_first() =~= Seq::<char>::empty());
        assert(s.push(c)[0] == c);
        assert(escape(s.push(c).drop_first()) == Seq::<char>::empty());
        assert(escape(s.push(c)) =~= escape_char(c));
    } else {
        lemma_escape_push(s.drop_first(), c);
        assert(s.push(c).drop_first() =~= s.drop_first().push(c));
        assert(escape(s.push(c)) =~= escape(s) + escape_char(c));
    }
}

fn push_escaped_char(s: &mut String, c: char)
    ensures
        final(s)@ == old(s)@ + escape_char(c),
{
    let u = c as u32;
    if c == '"' {
        push_char(s, '\\');
        push_char(s, '"');
    } else if c == '\\' {
        push_char(s, '\\');
        push_char(s, '\\');
    } else if u == 8 {
        push_char(s, '\\');
        push_char(s, 'b');
    } else if u == 12 {
        push_char(s, '\\');
        push_char(s, 'f');
    } else if c == '\n' {
        push_char(s, '\\');
        push_char(s, 'n');
    } else if c == '\r' {
        push_char(s, '\\');
        push_char(s, 'r');
    } else if c == '\t' {
        push_char(s, '\\');
        push_char(s, 't');
    } else if u < 0x20 {
        push_char(s, '\\');
        push_char(s, 'u');
        push_char(s, '0');
        push_char(s, '0');
        push_char(s, hex(u / 16));
        push_char(s, hex(u % 16));
    } else {
        push_char(s, c);
    }
    assert(s@ =~= old(s)@ + escape_char(c));
}

fn push_escaped(s: &mut String, t: &str)
    ensures
        final(s)@ == old(s)@ + escape(t@),
{
    let ghost start = s@;
    proof {
        assert(t@.take(0) =~= Seq::<char>::empty());
    }
    for c in it: t.chars()
        invariant
            it.seq() == t@,
            s@ == start + escape(it.seq().take(it.index() as int)),
    {
        proof {
            assert(it.seq().take(it.index() + 1) == it.seq().take(it.index() as int).push(c));
            lemma_escape_push(it.seq().take(it.index() as int), c);
        }
        push_escaped_char(s, c);
        assert(s@ =~= start + escape(it.seq().take(it.index() + 1)));
    }
    proof {
        assert(t@.take(t@.len() as int) == t@);
    }
}

/// The JSON text of `c`.
pub fn claims_to_json(c: &Claims) -> (r: String)
    ensures
        r@ == claims_json(*c),
{
    let mut s = "{\"sub\":\"".to_owned();
    let id = uuid_to_text(c.sub);
    push_str(&mut s, id.as_str());
    push_str(&mut s, "\",\"email\":\"");
    push_escaped(&mut s, c.email.as_str());
    push_str(&mut s, "\",\"role\":\"");
    push_str(&mut s, c.role.as_str());
    push_str(&mut s, "\",\"exp\":");
    push_int(&mut s, c.exp);
    push_str(&mut s, ",\"iat\":");
    push_int(&mut s, c.iat);
    push_str(&mut s, "}");
    assert(s@ =~= claims_json(*c));
    s
}

/// A decimal digit character.
pub open spec fn is_dec_digit(c: char) -> bool {
    48 <= (c as u32) && (c as u32) <= 57
}

/// Every character is a decimal digit.
pub open spec fn all_dec(s: Seq<char>) -> bool {
    forall|i: int| 0 <= i < s.len() ==> is_dec_digit(#[trigger] s[i])
}

/// The value of a sequence of decimal digits.
pub open spec fn dec_value(s: Seq<char>) -> nat
    decreases s.len(),
{
    if s.len() == 0 {
        0
    } else {
        dec_value(s.drop_last()) * 10 + ((s.last() as u32) - 48) as nat
    }
}

/// The 64-bit integer a decimal text denotes: an optional `-` and at least
/// one digit, within range.
pub open spec fn int_of_text(s: Seq<char>) -> Option<i64> {
    if s.len() > 0 && s[0] == '-' {
        let d = s.drop_first();
        if d.len() > 0 && all_dec(d) && dec_value(d) <= 0x8000_0000_0000_0000 {
            Some((-(dec_value(d) as int)) as i64)
        } else {
            None
        }
    } else if s.len() > 0 && all_dec(s) && dec_value(s) <= 0x7fff_ffff_ffff_ffff {
        Some(dec_value(s) as i64)
    } else {
        None
    }
}

/// The value of a lowercase hexadecimal digit character.
pub open spec fn hex_value_of(c: char) -> Option<nat> {
    let u = c as u32;
    if 48 <= u && u <= 57 {
        Some((u - 48) as nat)
    } else if 97 <= u && u <= 102 {
        Some((u - 87) as nat)
    } else {
        None
    }
}

/// Every character is a lowercase hexadecimal digit.
pub open spec fn all_hex(s: Seq<char>) -> bool {
    forall|i: int| 0 <= i < s.len() ==> (#[trigger] hex_value_of(s[i])) is Some
}

/// The value of a sequence of lowercase hexadecimal digits.
pub open spec fn hex_value(s: Seq<char>) -> nat
    decreases s.len(),
{
    if s.len() == 0 {
        0
    } else {
        hex_value(s.drop_last()) * 16 + hex_value_of(s.last())->0
    }
}

/// The 32 hex digits of a hyphenated UUID text.
pub open spec fn uuid_hex(s: Seq<char>) -> Seq<char> {
    s.subrange(0, 8) + s.subrange(9, 13) + s.subrange(14, 18) + s.subrange(19, 23) + s.subrange(
        24,
        36,
    )
}

/// The UUID bits a hyphenated lowercase UUID text denotes.
pub open spec fn uuid_of_text(s: Seq<char>) -> Option<u128> {
    if s.len() == 36 && s[8] == '-' && s[13] == '-' && s[18] == '-' && s[23] == '-' && all_hex(
        uuid_hex(s),
    ) && hex_value(uuid_hex(s)) <= u128::MAX {
        Some(hex_value(uuid_hex(s)) as u128)
    } else {
        None
    }
}

/// The character a short escape letter stands for.
pub open spec fn short_unescape(c: char) -> Option<char> {
    if c == '"' {
        Some('"')
    } else if c == '\\' {
        Some('\\')
    } else if c == 'b' {
        Some('\u{8}')
    } else if c == 'f' {
        Some('\u{c}')
    } else if c == 'n' {
        Some('\n')
    } else if c == 'r' {
        Some('\r')
    } else if c == 't' {
        Some('\t')
    } else {
        None
    }
}

/// `c` followed by the characters of `rest`, if any.
pub open spec fn prepend(c: char, rest: Option<Seq<char>>) -> Option<Seq<char>> {
    match rest {
        Some(r) => Some(seq![c] + r),
        None => None,
    }
}

/// The characters an escaped JSON string body denotes: short escapes,
/// `\u00XX` with lowercase hex, and any other character but a backslash as
/// itself.
pub open spec fn unescape(t: Seq<char>) -> Option<Seq<char>>
    decreases t.len(),
{
    if t.len() == 0 {
        Some(Seq::empty())
    } else if t[0] != '\\' {
        prepend(t[0], unescape(t.drop_first()))
    } else if t.len() >= 2 && short_unescape(t[1]) is Some {
        prepend(short_unescape(t[1])->0, unescape(t.skip(2)))
    } else if t.len() >= 6 && t[1] == 'u' && t[2] == '0' && t[3] == '0' && hex_value_of(t[4]) is Some
        && hex_value_of(t[5]) is Some {
        prepend(
            ((hex_value_of(t[4])->0 * 16 + hex_value_of(t[5])->0) as u32) as char,
            unescape(t.skip(6)),
        )
    } else {
        None
    }
}

proof fn lemma_dec_digits(n: nat)
    ensures
        dec_digits(n).len() > 0,
        all_dec(dec_digits(n)),
        dec_value(dec_digits(n)) == n,
        !dec_digits(n).contains(','),
        dec_digits(n)[0] != '-',
    decreases n,
{
    if n >= 10 {
        lemma_dec_digits(n / 10);
        let s = dec_digits(n);
        assert(s.drop_last() == dec_digits(n / 10));
        lemma_fundamental_div_mod(n as int, 10);
        assert(s.last() == digit_char((n % 10) as int));
        assert((digit_char((n % 10) as int) as u32) == (n % 10) + 48);
        assert(dec_value(s) == dec_value(dec_digits(n / 10)) * 10 + (n % 10));
        assert forall|i: int| 0 <= i < s.len() implies is_dec_digit(#[trigger] s[i]) by {
            if i < s.len() - 1 {
                assert(s[i] == dec_digits(n / 10)[i]);
            }
        }
        if s.contains(',') {
            let i = choose|i: int| 0 <= i < s.len() && s[i] == ',';
            if i < s.len() - 1 {
                assert(dec_digits(n / 10)[i] == ',');
                assert(dec_digits(n / 10).contains(','));
            }
        }
        assert(s[0] == dec_digits(n / 10)[0]);
    } else {
        let s = dec_digits(n);
        assert(s.drop_last() =~= Seq::<char>::empty());
        assert((digit_char(n as int) as u32) == n + 48);
        assert(dec_value(s) == dec_value(s.drop_last()) * 10 + n);
        if s.contains(',') {
            let i = choose|i: int| 0 <= i < s.len() && s[i] == ',';
            assert(i == 0);
        }
    }
}

/// The decimal text of a 64-bit integer reads back as that integer.
pub proof fn lemma_int_text_roundtrip(i: i64)
    ensures
        int_of_text(int_text(i as int)) == Some(i),
        !int_text(i as int).contains(','),
        int_text(i as int).len() > 0,
{
    if i < 0 {
        let m = (-(i as int)) as nat;
        lemma_dec_digits(m);
        let s = int_text(i as int);
        assert(s.drop_first() =~= dec_digits(m));
        assert(s[0] == '-');
        if s.contains(',') {
            let k = choose|k: int| 0 <= k < s.len() && s[k] == ',';
            assert(k > 0);
            assert(dec_digits(m)[k - 1] == ',');
            assert(dec_digits(m).contains(','));
        }
    } else {
        lemma_dec_digits(i as nat);
    }
}

proof fn lemma_hex_digit_roundtrip(d: int)
    requires
        0 <= d < 16,
    ensures
        hex_value_of(hex_char(d)) == Some(d as nat),
{
}

proof fn lemma_hex_digits(v: nat, n: nat, p: nat)
    requires
        p == pow16(n),
        v < p,
    ensures
        hex_digits(v, n).len() == n,
        all_hex(hex_digits(v, n)),
        hex_value(hex_digits(v, n)) == v,
    decreases n,
{
    if n > 0 {
        assert(pow16(n) == 16 * pow16((n - 1) as nat));
        assert(v / 16 < pow16((n - 1) as nat)) by (nonlinear_arith)
            requires
                v < 16 * pow16((n - 1) as nat),
        ;
        lemma_hex_digits(v / 16, (n - 1) as nat, pow16((n - 1) as nat));
        lemma_fundamental_div_mod(v as int, 16);
        let s = hex_digits(v, n);
        assert(s.drop_last() == hex_digits(v / 16, (n - 1) as nat));
        lemma_hex_digit_roundtrip((v % 16) as int);
        assert forall|i: int| 0 <= i < s.len() implies (#[trigger] hex_value_of(s[i])) is Some by {
            if i < s.len() - 1 {
                assert(s[i] == hex_digits(v / 16, (n - 1) as nat)[i]);
            }
        }
    } else {
        assert(v == 0);
    }
}

/// Powers of sixteen.
pub open spec fn pow16(n: nat) -> nat
    decreases n,
{
    if n == 0 {
        1
    } else {
        16 * pow16((n - 1) as nat)
    }
}

/// The hyphenated text of a UUID reads back as its bits.
pub proof fn lemma_uuid_text_roundtrip(v: u128)
    ensures
        uuid_of_text(uuid_text(v)) == Some(v),
        uuid_text(v).len() == 36,
{
    reveal_with_fuel(pow16, 33);
    assert(pow16(32) == 0x1_0000_0000_0000_0000_0000_0000_0000_0000);
    lemma_hex_digits(v as nat, 32, pow16(32));
    let h = hex_digits(v as nat, 32);
    let s = uuid_text(v);
    assert(uuid_hex(s) =~= h);
}

proof fn lemma_unescape_char(c: char, rest: Seq<char>)
    ensures
        unescape(escape_char(c) + rest) == prepend(c, unescape(rest)),
{
    let t = escape_char(c) + rest;
    let u = c as u32;
    if c == '"' || c == '\\' || c == '\u{8}' || c == '\u{c}' || c == '\n' || c == '\r' || c == '\t' {
        assert(t.skip(2) =~= rest);
    } else if u < 0x20 {
        assert(t.skip(6) =~= rest);
        lemma_hex_digit_roundtrip((u / 16) as int);
        lemma_hex_digit_roundtrip((u % 16) as int);
        assert(t[4] == hex_char((u / 16) as int));
        assert(t[5] == hex_char((u % 16) as int));
        assert((u / 16) * 16 + u % 16 == u);
        assert(((u as int) as u32) as char == c);
    } else {
        assert(t.drop_first() =~= rest);
    }
}

/// The escaped body of a string reads back as that string.
pub proof fn lemma_unescape_escape(s: Seq<char>)
    ensures
        unescape(escape(s)) == Some(s),
    decreases s.len(),
{
    if s.len() == 0 {
    } else {
        lemma_unescape_escape(s.drop_first());
        lemma_unescape_char(s[0], escape(s.drop_first()));
        assert(seq![s[0]] + s.drop_first() =~= s);
    }
}

proof fn lemma_dec_value_prefix(d: Seq<char>, k: int)
    requires
        all_dec(d),
        0 <= k <= d.len(),
    ensures
        dec_value(d.take(k)) <= dec_value(d),
    decreases d.len(),
{
    if k < d.len() {
        assert(all_dec(d.drop_last()));
        lemma_dec_value_prefix(d.drop_last(), k);
        assert(d.drop_last().take(k) == d.take(k));
    } else {
        assert(d.take(k) == d);
    }
}

fn digit_value_exec(c: char) -> (r: Option<u32>)
    ensures
        match r {
            Some(v) => is_dec_digit(c) && v == (c as u32) - 48,
            None => !is_dec_digit(c),
        },
{
    let u = c as u32;
    if 48 <= u && u <= 57 {
        Some(u - 48)
    } else {
        None
    }
}

fn hex_value_exec(c: char) -> (r: Option<u32>)
    ensures
        match hex_value_of(c) {
            Some(v) => r == Some(v as u32),
            None => r is None,
        },
{
    let u = c as u32;
    if 48 <= u && u <= 57 {
        Some(u - 48)
    } else if 97 <= u && u <= 102 {
        Some(u - 87)
    } else {
        None
    }
}

fn short_unescape_exec(c: char) -> (r: Option<char>)
    ensures
        r == short_unescape(c),
{
    if c == '"' {
        Some('"')
    } else if c == '\\' {
        Some('\\')
    } else if c == 'b' {
        Some('\u{8}')
    } else if c == 'f' {
        Some('\u{c}')
    } else if c == 'n' {
        Some('\n')
    } else if c == 'r' {
        Some('\r')
    } else if c == 't' {
        Some('\t')
    } else {
        None
    }
}

/// The 64-bit integer the characters `t[lo..hi]` denote, if any.
fn int_from_chars(t: &Vec<char>, lo: usize, hi: usize) -> (r: Option<i64>)
    requires
        lo <= hi <= t@.len(),
    ensures
        r == int_of_text(t@.subrange(lo as int, hi as int)),
{
    let ghost s = t@.subrange(lo as int, hi as int);
    assert(lo < hi ==> s[0] == t@[lo as int]);
    let neg = lo < hi && t[lo] == '-';
    let start = if neg {
        lo + 1
    } else {
        lo
    };
    if start >= hi {
        return None;
    }
    let ghost d = t@.subrange(start as int, hi as int);
    proof {
        if neg {
            assert(s.drop_first() =~= d);
        } else {
            assert(s =~= d);
        }
    }
    let mut acc: u128 = 0;
    let mut i = start;
    assert(t@.subrange(start as int, start as int) =~= Seq::<char>::empty());
    while i < hi
        invariant
            lo <= start <= i <= hi <= t@.len(),
            d == t@.subrange(start as int, hi as int),
            s == t@.subrange(lo as int, hi as int),
            lo < hi ==> s[0] == t@[lo as int],
            neg == (lo < hi && t@[lo as int] == '-'),
            neg ==> s.drop_first() == d,
            !neg ==> s == d,
            all_dec(t@.subrange(start as int, i as int)),
            acc == dec_value(t@.subrange(start as int, i as int)),
            acc <= 0x8000_0000_0000_0000,
        decreases hi - i,
    {
        let ghost pre = t@.subrange(start as int, i as int);
        let ghost next_seq = t@.subrange(start as int, i + 1);
        proof {
            assert(next_seq.drop_last() =~= pre);
            assert(next_seq.last() == t@[i as int]);
            assert(d.take(i + 1 - start) =~= next_seq);
        }
        let c = t[i];
        let dv = match digit_value_exec(c) {
            Some(v) => v,
            None => {
                proof {
                    let j = (i - start) as int;
                    assert(d[j] == t@[i as int]);
                    assert(!is_dec_digit(d[j]));
                    assert(!all_dec(d));
                }
                return None;
            },
        };
        let next = acc * 10 + dv as u128;
        proof {
            assert(all_dec(next_seq)) by {
                assert forall|j: int| 0 <= j < next_seq.len() implies is_dec_digit(
                    #[trigger] next_seq[j],
                ) by {
                    if j < next_seq.len() - 1 {
                        assert(next_seq[j] == pre[j]);
                    }
                }
            }
            assert(next == dec_value(next_seq));
        }
        if next > 0x8000_0000_0000_0000 {
            proof {
                if all_dec(d) {
                    lemma_dec_value_prefix(d, i + 1 - start);
                }
            }
            return None;
        }
        acc = next;
        i += 1;
    }
    proof {
        assert(t@.subrange(start as int, hi as int) == d);
    }
    if neg {
        let v: i128 = -(acc as i128);
        Some(v as i64)
    } else if acc <= 0x7fff_ffff_ffff_ffff {
        Some(acc as i64)
    } else {
        None
    }
}

/// The UUID bits the 36 characters from `t[lo]` denote, if any.
fn uuid_from_chars(t: &Vec<char>, lo: usize) -> (r: Option<u128>)
    requires
        lo + 36 <= t@.len(),
    ensures
        r == uuid_of_text(t@.subrange(lo as int, lo + 36)),
{
    let ghost s = t@.subrange(lo as int, lo + 36);
    let n = t.len();
    if !(t[lo + 8] == '-' && t[lo + 13] == '-' && t[lo + 18] == '-' && t[lo + 23] == '-') {
        assert(!(s[8] == '-' && s[13] == '-' && s[18] == '-' && s[23] == '-'));
        return None;
    }
    let mut h: Vec<char> = Vec::new();
    push_range(&mut h, t, lo, lo + 8);
    push_range(&mut h, t, lo + 9, lo + 13);
    push_range(&mut h, t, lo + 14, lo + 18);
    push_range(&mut h, t, lo + 19, lo + 23);
    push_range(&mut h, t, lo + 24, lo + 36);
    assert(h@ =~= uuid_hex(s));
    let mut acc: u128 = 0;
    let mut k: usize = 0;
    proof {
        reveal_with_fuel(pow16, 33);
        assert(pow16(32) == 0x1_0000_0000_0000_0000_0000_0000_0000_0000);
        assert(h@.take(0) =~= Seq::<char>::empty());
    }
    while k < 32
        invariant
            h@.len() == 32,
            lo + 36 <= t@.len(),
            s == t@.subrange(lo as int, lo + 36),
            s.len() == 36,
            s[8] == '-' && s[13] == '-' && s[18] == '-' && s[23] == '-',
            k <= 32,
            h@ == uuid_hex(s),
            all_hex(h@.take(k as int)),
            acc == hex_value(h@.take(k as int)),
            acc < pow16(k as nat),
            pow16(32) == 0x1_0000_0000_0000_0000_0000_0000_0000_0000,
        decreases 32 - k,
    {
        let ghost pre = h@.take(k as int);
        let ghost next_seq = h@.take(k + 1);
        proof {
            assert(next_seq.drop_last() =~= pre);
            assert(next_seq.last() == h@[k as int]);
            lemma_pow16_monotone(k as nat + 1, 32);
        }
        let c = h[k];
        let dv = match hex_value_exec(c) {
            Some(v) => v,
            None => {
                assert(c == h@[k as int]);
                assert(hex_value_of(h@[k as int]) is None);
                assert(!all_hex(h@));
                return None;
            },
        };
        proof {
            assert(pow16(k as nat + 1) == 16 * pow16(k as nat));
            assert(acc * 16 + dv < 16 * pow16(k as nat)) by (nonlinear_arith)
                requires
                    acc < pow16(k as nat),
                    dv < 16,
            ;
        }
        acc = acc * 16 + dv as u128;
        proof {
            assert(all_hex(next_seq)) by {
                assert forall|j: int| 0 <= j < next_seq.len() implies (#[trigger] hex_value_of(
                    next_seq[j],
                )) is Some by {
                    if j < next_seq.len() - 1 {
                        assert(next_seq[j] == pre[j]);
                    }
                }
            }
        }
        k += 1;
    }
    assert(h@.take(32) == h@);
    Some(acc)
}

proof fn lemma_pow16_monotone(a: nat, b: nat)
    requires
        a <= b,
    ensures
        pow16(a) <= pow16(b),
    decreases b,
{
    if a < b {
        lemma_pow16_monotone(a, (b - 1) as nat);
    }
}

fn push_range(v: &mut Vec<char>, t: &Vec<char>, a: usize, b: usize)
    requires
        a <= b <= t@.len(),
    ensures
        final(v)@ == old(v)@ + t@.subrange(a as int, b as int),
{
    let mut i = a;
    while i < b
        invariant
            a <= i <= b <= t@.len(),
            v@ == old(v)@ + t@.subrange(a as int, i as int),
        decreases b - i,
    {
        v.push(t[i]);
        i += 1;
        assert(v@ =~= old(v)@ + t@.subrange(a as int, i as int));
    }
}

/// `o` with `p` put in front of the characters it holds.
pub open spec fn prefix_with(p: Seq<char>, o: Option<Seq<char>>) -> Option<Seq<char>> {
    match o {
        Some(r) => Some(p + r),
        None => None,
    }
}

/// The characters the escaped string body `t[lo..hi]` denotes, if any.
fn unescape_chars(t: &Vec<char>, lo: usize, hi: usize) -> (r: Option<String>)
    requires
        lo <= hi <= t@.len(),
    ensures
        match unescape(t@.subrange(lo as int, hi as int)) {
            Some(u) => r matches Some(x) && x@ == u,
            None => r is None,
        },
{
    let mut out = String::new();
    let mut i = lo;
    assert(t@.subrange(lo as int, hi as int) == t@.subrange(lo as int, hi as int));
    while i < hi
        invariant
            lo <= i <= hi <= t@.len(),
            unescape(t@.subrange(lo as int, hi as int)) == prefix_with(
                out@,
                unescape(t@.subrange(i as int, hi as int)),
            ),
        decreases hi - i,
    {
        let ghost rest = t@.subrange(i as int, hi as int);
        let c = t[i];
        assert(rest[0] == c);
        if c != '\\' {
            proof {
                assert(rest.drop_first() =~= t@.subrange(i + 1, hi as int));
                assert(out@.push(c) =~= out@ + seq![c]);
                match unescape(t@.subrange(i + 1, hi as int)) {
                    Some(x) => { assert(out@ + (seq![c] + x) =~= out@.push(c) + x); },
                    None => {},
                }
            }
            push_char(&mut out, c);
            i += 1;
        } else {
            let short = if i + 1 < hi {
                short_unescape_exec(t[i + 1])
            } else {
                None
            };
            if let Some(e) = short {
                proof {
                    assert(rest[1] == t@[i + 1]);
                    assert(rest.skip(2) =~= t@.subrange(i + 2, hi as int));
                    match unescape(t@.subrange(i + 2, hi as int)) {
                        Some(x) => { assert(out@ + (seq![e] + x) =~= out@.push(e) + x); },
                        None => {},
                    }
                }
                push_char(&mut out, e);
                i += 2;
            } else if hi - i > 5 && t[i + 1] == 'u' && t[i + 2] == '0' && t[i + 3] == '0' {
                let h1 = hex_value_exec(t[i + 4]);
                let h2 = hex_value_exec(t[i + 5]);
                match (h1, h2) {
                    (Some(a), Some(b)) => {
                        let code = a * 16 + b;
                        let e = (code as u8) as char;
                        proof {
                            assert(rest[1] == t@[i + 1] && rest[2] == t@[i + 2] && rest[3] == t@[i + 3]);
                            assert(rest[4] == t@[i + 4] && rest[5] == t@[i + 5]);
                            assert(rest.skip(6) =~= t@.subrange(i + 6, hi as int));
                            assert(e == ((code as int) as u32) as char);
                            match unescape(t@.subrange(i + 6, hi as int)) {
                                Some(x) => { assert(out@ + (seq![e] + x) =~= out@.push(e) + x); },
                                None => {},
                            }
                        }
                        push_char(&mut out, e);
                        i += 6;
                    },
                    _ => {
                        proof {
                            assert(rest[4] == t@[i + 4] && rest[5] == t@[i + 5]);
                        }
                        return None;
                    },
                }
            } else {
                proof {
                    if i + 1 < hi {
                        assert(rest[1] == t@[i + 1]);
                    }
                    if i + 5 < hi {
                        assert(rest[1] == t@[i + 1] && rest[2] == t@[i + 2] && rest[3] == t@[i + 3]);
                    }
                }
                return None;
            }
        }
    }
    proof {
        assert(t@.subrange(hi as int, hi as int) =~= Seq::<char>::empty());
        assert(out@ + Seq::<char>::empty() =~= out@);
    }
    Some(out)
}

/// The position of the last comma before `end`, if any.
fn last_comma(t: &Vec<char>, end: usize) -> (r: Option<usize>)
    requires
        end <= t@.len(),
    ensures
        match r {
            Some(p) => p < end && t@[p as int] == ',' && forall|q: int|
                p < q < end ==> #[trigger] t@[q] != ',',
            None => forall|q: int| 0 <= q < end ==> #[trigger] t@[q] != ',',
        },
{
    let mut i = end;
    while i > 0
        invariant
            i <= end <= t@.len(),
            forall|q: int| i <= q < end ==> #[trigger] t@[q] != ',',
        decreases i,
    {
        i -= 1;
        if t[i] == ',' {
            return Some(i);
        }
    }
    None
}

/// Where the parts of a claims text lie: the UUID after 8 characters, the
/// escaped email from character 55, the role, and the two integers after
/// the last two commas.
proof fn lemma_claims_json_layout(c: Claims)
    ensures
        ({
            let t = claims_json(c);
            let x = escape(c.email@);
            let r = role_name(c.role);
            let e = int_text(c.exp as int);
            let i = int_text(c.iat as int);
            let b: int = (55 + x.len() + 10 + r.len()) as int;
            let p_exp: int = b + 1;
            let p_iat: int = b + 8 + e.len();
            &&& t.len() == p_iat + 7 + i.len() + 1
            &&& t.len() >= 87
            &&& t.subrange(8, 44) == uuid_text(c.sub)
            &&& t.subrange(55, 55 + x.len() as int) == x
            &&& t[b - 1] == 'n' <==> c.role == Role::Admin
            &&& r.len() == if c.role == Role::Admin { 5int } else { 4int }
            &&& t[p_exp] == ','
            &&& t[p_iat] == ','
            &&& (forall|q: int| p_exp < q < p_iat ==> #[trigger] t[q] != ',')
            &&& (forall|q: int| p_iat < q < t.len() ==> #[trigger] t[q] != ',')
            &&& t.subrange(p_exp + 7, p_iat) == e
            &&& t.subrange(p_iat + 7, t.len() - 1) == i
        }),
{
    let t = claims_json(c);
    let u = uuid_text(c.sub);
    let x = escape(c.email@);
    let r = role_name(c.role);
    let e = int_text(c.exp as int);
    let i = int_text(c.iat as int);
    reveal_strlit("{\"sub\":\"");
    reveal_strlit("\",\"email\":\"");
    reveal_strlit("\",\"role\":\"");
    reveal_strlit("\",\"exp\":");
    reveal_strlit(",\"iat\":");
    reveal_strlit("}");
    reveal_strlit("User");
    reveal_strlit("Admin");
    lemma_uuid_text_roundtrip(c.sub);
    lemma_int_text_roundtrip(c.exp);
    lemma_int_text_roundtrip(c.iat);
    let p1 = "{\"sub\":\""@;
    let p2 = "\",\"email\":\""@;
    let p3 = "\",\"role\":\""@;
    let p4 = "\",\"exp\":"@;
    let p5 = ",\"iat\":"@;
    let p6 = "}"@;
    let a1 = p1 + u;
    let a2 = a1 + p2;
    let a3 = a2 + x;
    let a4 = a3 + p3;
    let a5 = a4 + r;
    let a6 = a5 + p4;
    let a7 = a6 + e;
    let a8 = a7 + p5;
    let a9 = a8 + i;
    assert(t == a9 + p6);
    let b: int = (55 + x.len() + 10 + r.len()) as int;
    let p_exp: int = b + 1;
    let p_iat: int = b + 8 + e.len();
    assert(a5.len() == b);
    assert(a7.len() == p_iat);
    assert(t.subrange(8, 44) =~= u) by {
        assert(a1.subrange(8, 44) =~= u);
        assert forall|j: int| 8 <= j < 44 implies #[trigger] t[j] == a1[j] by {
            assert(t[j] == a9[j]);
            assert(a9[j] == a8[j]);
            assert(a8[j] == a7[j]);
            assert(a7[j] == a6[j]);
            assert(a6[j] == a5[j]);
            assert(a5[j] == a4[j]);
            assert(a4[j] == a3[j]);
            assert(a3[j] == a2[j]);
            assert(a2[j] == a1[j]);
        }
    }
    assert(t.subrange(55, 55 + x.len() as int) =~= x) by {
        assert forall|j: int| 55 <= j < 55 + x.len() implies #[trigger] t[j] == x[j - 55] by {
            assert(t[j] == a9[j]);
            assert(a9[j] == a8[j]);
            assert(a8[j] == a7[j]);
            assert(a7[j] == a6[j]);
            assert(a6[j] == a5[j]);
            assert(a5[j] == a4[j]);
            assert(a4[j] == a3[j]);
            assert(a3[j] == x[j - 55]);
        }
    }
    assert(t[b - 1] == r[r.len() - 1]) by {
        assert(t[b - 1] == a9[b - 1]);
        assert(a9[b - 1] == a8[b - 1]);
        assert(a8[b - 1] == a7[b - 1]);
        assert(a7[b - 1] == a6[b - 1]);
        assert(a6[b - 1] == a5[b - 1]);
    }
    assert(t[p_exp] == ',') by {
        assert(t[p_exp] == a9[p_exp]);
        assert(a9[p_exp] == a8[p_exp]);
        assert(a8[p_exp] == a7[p_exp]);
        assert(a7[p_exp] == a6[p_exp]);
        assert(a6[p_exp] == p4[1]);
    }
    assert(t[p_iat] == ',') by {
        assert(t[p_iat] == a9[p_iat]);
        assert(a9[p_iat] == a8[p_iat]);
        assert(a8[p_iat] == p5[0]);
    }
    assert forall|q: int| p_exp < q < p_iat implies #[trigger] t[q] != ',' by {
        assert(t[q] == a9[q]);
        assert(a9[q] == a8[q]);
        assert(a8[q] == a7[q]);
        if q < b + 8 {
            assert(a7[q] == a6[q]);
            assert(a6[q] == p4[q - b]);
        } else {
            assert(a7[q] == e[q - b - 8]);
            assert(!e.contains(','));
            if e[q - b - 8] == ',' {
                assert(e.contains(','));
            }
        }
    }
    assert forall|q: int| p_iat < q < t.len() implies #[trigger] t[q] != ',' by {
        if q < t.len() - 1 {
            assert(t[q] == a9[q]);
            if q < p_iat + 7 {
                assert(a9[q] == a8[q]);
                assert(a8[q] == p5[q - p_iat]);
            } else {
                assert(a9[q] == i[q - p_iat - 7]);
                if i[q - p_iat - 7] == ',' {
                    assert(i.contains(','));
                }
            }
        } else {
            assert(t[q] == p6[0]);
        }
    }
    assert(t.subrange(p_exp + 7, p_iat) =~= e) by {
        assert forall|j: int| p_exp + 7 <= j < p_iat implies #[trigger] t[j] == e[j - p_exp - 7] by {
            assert(t[j] == a9[j]);
            assert(a9[j] == a8[j]);
            assert(a8[j] == a7[j]);
        }
    }
    assert(t.subrange(p_iat + 7, t.len() - 1) =~= i) by {
        assert forall|j: int| p_iat + 7 <= j < t.len() - 1 implies #[trigger] t[j] == i[j - p_iat - 7] by {
            assert(t[j] == a9[j]);
        }
    }
}

/// Law: two sets of claims with the same JSON text are the same claims, so
/// a token payload determines the claims it carries.
pub proof fn law_claims_text_determines_claims(c1: Claims, c2: Claims)
    requires
        claims_json(c1) == claims_json(c2),
    ensures
        c1@ == c2@,
{
    let t = claims_json(c1);
    lemma_claims_json_layout(c1);
    lemma_claims_json_layout(c2);
    lemma_uuid_text_roundtrip(c1.sub);
    lemma_uuid_text_roundtrip(c2.sub);
    lemma_int_text_roundtrip(c1.exp);
    lemma_int_text_roundtrip(c2.exp);
    lemma_int_text_roundtrip(c1.iat);
    lemma_int_text_roundtrip(c2.iat);
    lemma_unescape_escape(c1.email@);
    lemma_unescape_escape(c2.email@);
    let x1 = escape(c1.email@);
    let x2 = escape(c2.email@);
    let b1: int = (55 + x1.len() + 10 + role_name(c1.role).len()) as int;
    let b2: int = (55 + x2.len() + 10 + role_name(c2.role).len()) as int;
    let pi1: int = b1 + 8 + int_text(c1.exp as int).len();
    let pi2: int = b2 + 8 + int_text(c2.exp as int).len();
    if pi1 < pi2 {
        assert(t[pi2] == ',');
    } else if pi1 > pi2 {
        assert(t[pi1] == ',');
    }
    if b1 < b2 {
        assert(t[b2 + 1] == ',');
    } else if b1 > b2 {
        assert(t[b1 + 1] == ',');
    }
    assert(b1 == b2);
    assert(c1.role == c2.role);
    assert(x1 == x2);
}

/// Reads claims back from their JSON text: exactly the texts that
/// `claims_json` produces are accepted, each giving back its claims.
#[verifier::spinoff_prover]
#[verifier::rlimit(100)]
pub fn parse_claims(text: &str) -> (r: Option<Claims>)
    ensures
        r matches Some(c) ==> claims_json(c) == text@,
        forall|c: Claims| #[trigger] claims_json(c) == text@ ==> (r matches Some(d) && d@ == c@),
{
    let t = chars_of(text);
    let n = t.len();
    let ghost found = exists|c: Claims| #[trigger] claims_json(c) == text@;
    let ghost c0 = choose|c: Claims| #[trigger] claims_json(c) == text@;
    let ghost x0 = escape(c0.email@);
    let ghost b0: int = (55 + x0.len() + 10 + role_name(c0.role).len()) as int;
    let ghost pi0: int = b0 + 8 + int_text(c0.exp as int).len();
    proof {
        if found {
            lemma_claims_json_layout(c0);
            lemma_uuid_text_roundtrip(c0.sub);
            lemma_int_text_roundtrip(c0.exp);
            lemma_int_text_roundtrip(c0.iat);
            lemma_unescape_escape(c0.email@);
        }
    }
    if n < 87 {
        return None;
    }
    let sub = match uuid_from_chars(&t, 8) {
        Some(v) => v,
        None => {
            return None;
        },
    };
    let p_iat = match last_comma(&t, n) {
        Some(p) => p,
        None => {
            return None;
        },
    };
    let p_exp = match last_comma(&t, p_iat) {
        Some(p) => p,
        None => {
            return None;
        },
    };
    proof {
        if found {
            if p_iat < pi0 {
                assert(t@[pi0] == ',');
            } else if p_iat > pi0 {
                assert(t@[p_iat as int] != ',');
            }
            if p_exp < b0 + 1 {
                assert(t@[b0 + 1] == ',');
            } else if p_exp > b0 + 1 {
                assert(t@[p_exp as int] != ',');
            }
        }
    }
    if n - p_iat < 8 || p_exp + 7 > p_iat || p_exp < 2 {
        return None;
    }
    let iat = match int_from_chars(&t, p_iat + 7, n - 1) {
        Some(v) => v,
        None => {
            return None;
        },
    };
    let exp = match int_from_chars(&t, p_exp + 7, p_iat) {
        Some(v) => v,
        None => {
            return None;
        },
    };
    let admin = t[p_exp - 2] == 'n';
    let role = if admin {
        Role::Admin
    } else {
        Role::User
    };
    let rlen: usize = if admin {
        5
    } else {
        4
    };
    if p_exp < 66 + rlen {
        return None;
    }
    let email = match unescape_chars(&t, 55, p_exp - 11 - rlen) {
        Some(s) => s,
        None => {
            return None;
        },
    };
    let c = Claims { sub, email, role, exp, iat };
    proof {
        if found {
            assert(c@ == c0@);
        }
    }
    let again = claims_to_json(&c);
    if str_eq(again.as_str(), text) {
        proof {
            assert forall|c1: Claims| #[trigger] claims_json(c1) == text@ implies c1@ == c@ by {
                law_claims_text_determines_claims(c1, c);
            }
        }
        Some(c)
    } else {
        proof {
            assert forall|c1: Claims| #[trigger] claims_json(c1) != text@ by {
                if claims_json(c1) == text@ {
                    law_claims_text_determines_claims(c1, c0);
                    assert(claims_json(c) == claims_json(c0));
                }
            }
        }
        None
    }
}

} // verus!
