//! Textual primitives for the interchange form: decimal integers, escaped
//! strings, and the strict parsers that read the canonical text back.

use vstd::prelude::*;

verus! {

// ---------------------------------------------------------------------
// Characters and digits
// ---------------------------------------------------------------------

pub open spec fn is_digit(c: char) -> bool {
    48 <= c as u32 && c as u32 <= 57
}

pub open spec fn digit_val(c: char) -> nat {
    (c as u32 - 48) as nat
}

pub open spec fn digit_char(d: nat) -> char {
    if d == 0 { '0' }
    else if d == 1 { '1' }
    else if d == 2 { '2' }
    else if d == 3 { '3' }
    else if d == 4 { '4' }
    else if d == 5 { '5' }
    else if d == 6 { '6' }
    else if d == 7 { '7' }
    else if d == 8 { '8' }
    else { '9' }
}

pub open spec fn is_hex(c: char) -> bool {
    is_digit(c) || (97 <= c as u32 && c as u32 <= 102)
}

pub open spec fn hex_val(c: char) -> nat {
    if is_digit(c) { digit_val(c) } else { (c as u32 - 87) as nat }
}

pub open spec fn hex_char(d: nat) -> char {
    if d < 10 { digit_char(d) }
    else if d == 10 { 'a' }
    else if d == 11 { 'b' }
    else if d == 12 { 'c' }
    else if d == 13 { 'd' }
    else if d == 14 { 'e' }
    else { 'f' }
}

/// The character whose code point is `n` (taken below 256; the escape
/// grammar only ever uses it below 32).
pub open spec fn low_char(n: nat) -> char {
    ((n % 256) as u8) as char
}

// ---------------------------------------------------------------------
// Rendering: decimal integers and escaped strings
// ---------------------------------------------------------------------

/// The decimal digits of `m`, most significant first, with no sign and no
/// leading zero (except for `m == 0` itself).
pub open spec fn dec_digits(m: nat) -> Seq<char>
    decreases m,
{
    if m < 10 {
        seq![digit_char(m)]
    } else {
        dec_digits(m / 10) + seq![digit_char(m % 10)]
    }
}

/// The canonical decimal text of `n`: a minus sign for negative values,
/// then the digits of the magnitude.
pub open spec fn int_text(n: int) -> Seq<char> {
    if n < 0 {
        seq!['-'] + dec_digits((-n) as nat)
    } else {
        dec_digits(n as nat)
    }
}

/// How one character is written inside a quoted string: quote and
/// backslash are escaped, control characters become `\u00` plus two hex
/// digits, and everything else stands for itself.
pub open spec fn esc_char(c: char) -> Seq<char> {
    if c == '"' {
        seq!['\\', '"']
    } else if c == '\\' {
        seq!['\\', '\\']
    } else if (c as u32) < 32 {
        seq!['\\', 'u', '0', '0', hex_char((c as u32 / 16) as nat), hex_char((c as u32 % 16) as nat)]
    } else {
        seq![c]
    }
}

pub open spec fn escape(s: Seq<char>) -> Seq<char>
    decreases s.len(),
{
    if s.len() == 0 {
        Seq::empty()
    } else {
        esc_char(s[0]) + escape(s.skip(1))
    }
}

/// A string value in the interchange text: the escaped body between two
/// quotes.
pub open spec fn quoted(s: Seq<char>) -> Seq<char> {
    seq!['"'] + escape(s) + seq!['"']
}

pub open spec fn null_text() -> Seq<char> {
    seq!['n', 'u', 'l', 'l']
}

pub open spec fn opt_str_text(o: Option<Seq<char>>) -> Seq<char> {
    match o {
        Option::Some(s) => quoted(s),
        Option::None => null_text(),
    }
}

pub open spec fn opt_int_text(o: Option<int>) -> Seq<char> {
    match o {
        Option::Some(n) => int_text(n),
        Option::None => null_text(),
    }
}

// ---------------------------------------------------------------------
// Parsing
// ---------------------------------------------------------------------

/// Consumes the exact text `p` from the head of `s`, or fails.
pub open spec fn expect(s: Seq<char>, p: Seq<char>) -> Option<Seq<char>> {
    if p.len() <= s.len() && s.subrange(0, p.len() as int) == p {
        Option::Some(s.skip(p.len() as int))
    } else {
        Option::None
    }
}

/// Reads the body of a quoted string up to and including the closing
/// quote, undoing the escapes of [`esc_char`]; returns the decoded
/// characters and the rest of the input.
pub open spec fn parse_string_body(s: Seq<char>) -> Option<(Seq<char>, Seq<char>)>
    decreases s.len(),
{
    if s.len() == 0 {
        Option::None
    } else if s[0] == '"' {
        Option::Some((Seq::empty(), s.skip(1)))
    } else if s[0] == '\\' {
        if s.len() >= 2 && (s[1] == '"' || s[1] == '\\') {
            match parse_string_body(s.skip(2)) {
                Option::Some((t, r)) => Option::Some((seq![s[1]] + t, r)),
                Option::None => Option::None,
            }
        } else if s.len() >= 6 && s[1] == 'u' && s[2] == '0' && s[3] == '0' && is_hex(s[4])
            && is_hex(s[5]) && hex_val(s[4]) * 16 + hex_val(s[5]) < 32 {
            match parse_string_body(s.skip(6)) {
                Option::Some((t, r)) => Option::Some(
                    (seq![low_char(hex_val(s[4]) * 16 + hex_val(s[5]))] + t, r),
                ),
                Option::None => Option::None,
            }
        } else {
            Option::None
        }
    } else {
        match parse_string_body(s.skip(1)) {
            Option::Some((t, r)) => Option::Some((seq![s[0]] + t, r)),
            Option::None => Option::None,
        }
    }
}

pub open spec fn parse_quoted(s: Seq<char>) -> Option<(Seq<char>, Seq<char>)> {
    if s.len() > 0 && s[0] == '"' {
        parse_string_body(s.skip(1))
    } else {
        Option::None
    }
}

/// A string field that may be absent: either a quoted string or the text
/// `null`.
pub open spec fn parse_opt_quoted(s: Seq<char>) -> Option<(Option<Seq<char>>, Seq<char>)> {
    if s.len() > 0 && s[0] == '"' {
        match parse_quoted(s) {
            Option::Some((t, r)) => Option::Some((Option::Some(t), r)),
            Option::None => Option::None,
        }
    } else {
        match expect(s, null_text()) {
            Option::Some(r) => Option::Some((Option::None, r)),
            Option::None => Option::None,
        }
    }
}

/// Folds decimal digits from the head of `s` onto `acc`, stopping at the
/// first character that is not a digit.
pub open spec fn parse_digits(s: Seq<char>, acc: nat) -> (nat, Seq<char>)
    decreases s.len(),
{
    if s.len() > 0 && is_digit(s[0]) {
        parse_digits(s.skip(1), acc * 10 + digit_val(s[0]))
    } else {
        (acc, s)
    }
}

/// Reads a decimal integer, optionally signed, and accepts it only inside
/// `[lo, hi]`.
pub open spec fn parse_int(s: Seq<char>, lo: int, hi: int) -> Option<(int, Seq<char>)> {
    if s.len() > 0 && s[0] == '-' {
        if s.len() >= 2 && is_digit(s[1]) {
            let (m, r) = parse_digits(s.skip(1), 0);
            if lo <= 0 - m && 0 - m <= hi {
                Option::Some((0 - m, r))
            } else {
                Option::None
            }
        } else {
            Option::None
        }
    } else if s.len() > 0 && is_digit(s[0]) {
        let (m, r) = parse_digits(s, 0);
        if lo <= m && m <= hi {
            Option::Some((m as int, r))
        } else {
            Option::None
        }
    } else {
        Option::None
    }
}

/// An integer field that may be absent: either a decimal integer or the
/// text `null`.
pub open spec fn parse_opt_int(s: Seq<char>, lo: int, hi: int) -> Option<(Option<int>, Seq<char>)> {
    if s.len() > 0 && (s[0] == '-' || is_digit(s[0])) {
        match parse_int(s, lo, hi) {
            Option::Some((n, r)) => Option::Some((Option::Some(n), r)),
            Option::None => Option::None,
        }
    } else {
        match expect(s, null_text()) {
            Option::Some(r) => Option::Some((Option::None, r)),
            Option::None => Option::None,
        }
    }
}

// ---------------------------------------------------------------------
// The parsers undo the renderers
// ---------------------------------------------------------------------

/// A code point below 32 comes back out of [`low_char`] as the same
/// character.
proof fn lemma_low_char(c: char)
    requires
        (c as u32) < 32,
    ensures
        low_char(c as u32 as nat) == c,
{
}

/// Consuming a text that starts with `p` leaves exactly what follows it.
pub proof fn lemma_expect_prefix(p: Seq<char>, rest: Seq<char>)
    ensures
        expect(p + rest, p) == Option::Some(rest),
{
    assert((p + rest).subrange(0, p.len() as int) =~= p);
    assert((p + rest).skip(p.len() as int) =~= rest);
}

/// Escaping one more character appends its escape to the escaped text.
pub proof fn lemma_escape_snoc(t: Seq<char>, c: char)
    ensures
        escape(t.push(c)) == escape(t) + esc_char(c),
    decreases t.len(),
{
    if t.len() == 0 {
        assert(t.push(c)[0] == c);
        assert(t.push(c).skip(1) =~= Seq::<char>::empty());
        assert(escape(Seq::<char>::empty()) == Seq::<char>::empty());
        assert(escape(t.push(c)) == esc_char(c) + escape(Seq::<char>::empty()));
        assert(escape(t) == Seq::<char>::empty());
        assert(esc_char(c) + Seq::<char>::empty() =~= esc_char(c));
        assert(Seq::<char>::empty() + esc_char(c) =~= esc_char(c));
    } else {
        assert(t.push(c).skip(1) =~= t.skip(1).push(c));
        lemma_escape_snoc(t.skip(1), c);
        assert(escape(t.push(c)) == esc_char(t[0]) + escape(t.skip(1).push(c)));
        assert(esc_char(t[0]) + (escape(t.skip(1)) + esc_char(c)) =~= (esc_char(t[0])
            + escape(t.skip(1))) + esc_char(c));
    }
}

/// Reading a string body from the escape of `t`, the closing quote, and
/// anything after it recovers `t` exactly and stops at the quote.
pub proof fn lemma_parse_string_body(t: Seq<char>, rest: Seq<char>)
    ensures
        parse_string_body(escape(t) + seq!['"'] + rest) == Option::Some((t, rest)),
    decreases t.len(),
{
    let s = escape(t) + seq!['"'] + rest;
    if t.len() == 0 {
        assert(s =~= seq!['"'] + rest);
        assert(s[0] == '"');
        assert(s.skip(1) =~= rest);
        assert(t =~= Seq::<char>::empty());
    } else {
        let c = t[0];
        let tail = escape(t.skip(1)) + seq!['"'] + rest;
        assert(escape(t) == esc_char(c) + escape(t.skip(1)));
        lemma_parse_string_body(t.skip(1), rest);
        if c == '"' || c == '\\' {
            assert(s =~= seq!['\\', c] + tail);
            assert(s[0] == '\\' && s[1] == c && s.len() >= 2);
            assert(s.skip(2) =~= tail);
            assert(seq![c] + t.skip(1) =~= t);
        } else if (c as u32) < 32 {
            let h1 = hex_char((c as u32 / 16) as nat);
            let h0 = hex_char((c as u32 % 16) as nat);
            assert(s =~= seq!['\\', 'u', '0', '0', h1, h0] + tail);
            assert(s.len() >= 6);
            assert(is_hex(h1) && hex_val(h1) == (c as u32 / 16) as nat);
            assert(is_hex(h0) && hex_val(h0) == (c as u32 % 16) as nat);
            assert(hex_val(h1) * 16 + hex_val(h0) == c as u32);
            lemma_low_char(c);
            assert(s.skip(6) =~= tail);
            assert(seq![c] + t.skip(1) =~= t);
        } else {
            assert(s =~= seq![c] + tail);
            assert(s[0] == c && c != '"' && c != '\\');
            assert(s.skip(1) =~= tail);
            assert(seq![c] + t.skip(1) =~= t);
        }
    }
}

/// Reading a quoted string value recovers the string and what follows it.
pub proof fn lemma_parse_quoted(t: Seq<char>, rest: Seq<char>)
    ensures
        parse_quoted(quoted(t) + rest) == Option::Some((t, rest)),
{
    let s = quoted(t) + rest;
    assert(s[0] == '"');
    assert(s.skip(1) =~= escape(t) + seq!['"'] + rest);
    lemma_parse_string_body(t, rest);
}

/// Reading an optional string value recovers it, whether present or
/// absent.
pub proof fn lemma_parse_opt_quoted(o: Option<Seq<char>>, rest: Seq<char>)
    ensures
        parse_opt_quoted(opt_str_text(o) + rest) == Option::Some((o, rest)),
{
    let s = opt_str_text(o) + rest;
    match o {
        Option::Some(t) => {
            assert(s[0] == '"');
            lemma_parse_quoted(t, rest);
        },
        Option::None => {
            assert(s[0] == 'n');
            lemma_expect_prefix(null_text(), rest);
        },
    }
}

/// Digit folding walks through a block of digits and stops right after it.
proof fn lemma_parse_digits_chain(s1: Seq<char>, s2: Seq<char>, acc: nat)
    requires
        forall|i: int| 0 <= i < s1.len() ==> is_digit(#[trigger] s1[i]),
        s2.len() == 0 || !is_digit(s2[0]),
    ensures
        parse_digits(s1 + s2, acc) == (dval(s1, acc), s2),
    decreases s1.len(),
{
    if s1.len() == 0 {
        assert(s1 + s2 =~= s2);
    } else {
        assert((s1 + s2)[0] == s1[0]);
        assert((s1 + s2).skip(1) =~= s1.skip(1) + s2);
        lemma_parse_digits_chain(s1.skip(1), s2, acc * 10 + digit_val(s1[0]));
    }
}

/// The value of a block of digits folded onto `acc`.
spec fn dval(s: Seq<char>, acc: nat) -> nat
    decreases s.len(),
{
    if s.len() == 0 {
        acc
    } else {
        dval(s.skip(1), acc * 10 + digit_val(s[0]))
    }
}

proof fn lemma_dval_concat(a: Seq<char>, b: Seq<char>, acc: nat)
    ensures
        dval(a + b, acc) == dval(b, dval(a, acc)),
    decreases a.len(),
{
    if a.len() == 0 {
        assert(a + b =~= b);
    } else {
        assert((a + b)[0] == a[0]);
        assert((a + b).skip(1) =~= a.skip(1) + b);
        lemma_dval_concat(a.skip(1), b, acc * 10 + digit_val(a[0]));
    }
}

proof fn lemma_dec_digits_shape(m: nat)
    ensures
        dec_digits(m).len() >= 1,
        forall|i: int| 0 <= i < dec_digits(m).len() ==> is_digit(#[trigger] dec_digits(m)[i]),
    decreases m,
{
    if m < 10 {
        assert(is_digit(digit_char(m)));
    } else {
        lemma_dec_digits_shape(m / 10);
        assert(is_digit(digit_char(m % 10)));
        assert(forall|i: int|
            0 <= i < dec_digits(m).len() ==> is_digit(#[trigger] dec_digits(m)[i]));
    }
}

proof fn lemma_dec_digits_val(m: nat)
    ensures
        dval(dec_digits(m), 0) == m,
    decreases m,
{
    if m < 10 {
        let s = dec_digits(m);
        assert(s == seq![digit_char(m)]);
        assert(s.skip(1) =~= Seq::<char>::empty());
        assert(digit_val(digit_char(m)) == m);
        assert(dval(s, 0) == dval(s.skip(1), 0 * 10 + digit_val(s[0])));
        assert(dval(Seq::<char>::empty(), m) == m);
    } else {
        lemma_dec_digits_val(m / 10);
        lemma_dval_concat(dec_digits(m / 10), seq![digit_char(m % 10)], 0);
        let d = digit_char(m % 10);
        assert(digit_val(d) == m % 10);
        assert(seq![d].skip(1) =~= Seq::<char>::empty());
        assert(dval(seq![d], m / 10) == dval(seq![d].skip(1), (m / 10) * 10 + digit_val(seq![d][0])));
        assert(dval(Seq::<char>::empty(), (m / 10) * 10 + (m % 10)) == (m / 10) * 10 + (m % 10));
        assert((m / 10) * 10 + m % 10 == m);
    }
}

/// Reading a signed decimal written by [`int_text`] recovers the value,
/// provided what follows does not begin with another digit.
pub proof fn lemma_parse_int(n: int, lo: int, hi: int, rest: Seq<char>)
    requires
        lo <= n <= hi,
        rest.len() > 0,
        !is_digit(rest[0]),
    ensures
        parse_int(int_text(n) + rest, lo, hi) == Option::Some((n, rest)),
{
    if n < 0 {
        let m = (-n) as nat;
        let s = int_text(n) + rest;
        lemma_dec_digits_shape(m);
        assert(s =~= seq!['-'] + (dec_digits(m) + rest));
        assert(s[0] == '-');
        assert(s[1] == dec_digits(m)[0]);
        assert(is_digit(s[1]));
        assert(s.skip(1) =~= dec_digits(m) + rest);
        lemma_parse_digits_chain(dec_digits(m), rest, 0);
        lemma_dec_digits_val(m);
        assert(!(s[0] == '-' && s.len() == 0));
    } else {
        let m = n as nat;
        let s = int_text(n) + rest;
        lemma_dec_digits_shape(m);
        assert(s[0] == dec_digits(m)[0]);
        assert(is_digit(s[0]));
        assert(s[0] != '-') by {
            assert(is_digit(s[0]) && !is_digit('-'));
        }
        lemma_parse_digits_chain(dec_digits(m), rest, 0);
        lemma_dec_digits_val(m);
    }
}

/// Reading an optional decimal recovers it, whether present or absent.
pub proof fn lemma_parse_opt_int(o: Option<int>, lo: int, hi: int, rest: Seq<char>)
    requires
        o matches Option::Some(n) ==> lo <= n <= hi,
        rest.len() > 0,
        !is_digit(rest[0]),
    ensures
        parse_opt_int(opt_int_text(o) + rest, lo, hi) == Option::Some((o, rest)),
{
    let s = opt_int_text(o) + rest;
    match o {
        Option::Some(n) => {
            lemma_parse_int(n, lo, hi, rest);
            if n < 0 {
                assert(s[0] == '-');
            } else {
                lemma_dec_digits_shape(n as nat);
                assert(s[0] == dec_digits(n as nat)[0]);
                assert(is_digit(s[0]));
            }
        },
        Option::None => {
            assert(s[0] == 'n');
            assert(!(s[0] == '-' || is_digit(s[0])));
            lemma_expect_prefix(null_text(), rest);
        },
    }
}

// ---------------------------------------------------------------------
// Executable text handling
// ---------------------------------------------------------------------

/// Relies on `String`'s `FromIterator<char>`: collecting characters into a
/// `String` yields exactly those characters.
#[verifier::external_body]
pub fn chars_to_string(v: &Vec<char>) -> (r: String)
    ensures
        r@ == v@,
{
    v.iter().collect()
}

/// The characters of `s`, as a vector.
pub fn str_to_chars(s: &str) -> (v: Vec<char>)
    ensures
        v@ == s@,
{
    let n = s.unicode_len();
    let mut v: Vec<char> = Vec::new();
    let mut j: usize = 0;
    while j < n
        invariant
            n == s@.len(),
            j <= n,
            v@ == s@.subrange(0, j as int),
        decreases n - j,
    {
        v.push(s.get_char(j));
        assert(s@.subrange(0, j + 1 as int) =~= s@.subrange(0, j as int).push(s@[j as int]));
        j += 1;
    }
    assert(s@.subrange(0, n as int) =~= s@);
    v
}

fn is_digit_exec(c: char) -> (b: bool)
    ensures
        b == is_digit(c),
{
    let u = c as u32;
    48 <= u && u <= 57
}

fn hex_val_exec(c: char) -> (r: Option<u32>)
    ensures
        match r {
            Option::Some(x) => is_hex(c) && x == hex_val(c) && x < 16,
            Option::None => !is_hex(c),
        },
{
    let u = c as u32;
    if 48 <= u && u <= 57 {
        Some(u - 48)
    } else if 97 <= u && u <= 102 {
        Some(u - 87)
    } else {
        None
    }
}

fn digit_char_exec(d: u8) -> (c: char)
    requires
        d < 10,
    ensures
        c == digit_char(d as nat),
{
    match d {
        0 => '0',
        1 => '1',
        2 => '2',
        3 => '3',
        4 => '4',
        5 => '5',
        6 => '6',
        7 => '7',
        8 => '8',
        _ => '9',
    }
}

fn hex_char_exec(d: u8) -> (c: char)
    requires
        d < 16,
    ensures
        c == hex_char(d as nat),
{
    if d < 10 {
        digit_char_exec(d)
    } else {
        match d {
            10 => 'a',
            11 => 'b',
            12 => 'c',
            13 => 'd',
            14 => 'e',
            _ => 'f',
        }
    }
}

// ---------------------------------------------------------------------
// Executable rendering
// ---------------------------------------------------------------------

/// Appends the characters of `s` to `out`.
pub fn push_str_chars(out: &mut Vec<char>, s: &str)
    ensures
        final(out)@ == old(out)@ + s@,
{
    let n = s.unicode_len();
    let mut j: usize = 0;
    while j < n
        invariant
            n == s@.len(),
            j <= n,
            out@ == old(out)@ + s@.subrange(0, j as int),
        decreases n - j,
    {
        out.push(s.get_char(j));
        assert(s@.subrange(0, j + 1 as int) =~= s@.subrange(0, j as int).push(s@[j as int]));
        assert((old(out)@ + s@.subrange(0, j as int)).push(s@[j as int]) =~= old(out)@
            + s@.subrange(0, j + 1 as int));
        j += 1;
    }
    assert(s@.subrange(0, n as int) =~= s@);
}

/// Appends the text `null` to `out`.
pub fn push_null(out: &mut Vec<char>)
    ensures
        final(out)@ == old(out)@ + null_text(),
{
    push_str_chars(out, "null");
    proof {
        reveal_strlit("null");
        assert(("null")@ =~= null_text());
    }
}

fn push_esc_char(out: &mut Vec<char>, c: char)
    ensures
        final(out)@ == old(out)@ + esc_char(c),
{
    if c == '"' {
        out.push('\\');
        out.push('"');
        assert(old(out)@.push('\\').push('"') =~= old(out)@ + esc_char(c));
    } else if c == '\\' {
        out.push('\\');
        out.push('\\');
        assert(old(out)@.push('\\').push('\\') =~= old(out)@ + esc_char(c));
    } else {
        let u = c as u32;
        if u < 32 {
            let h1 = hex_char_exec((u / 16) as u8);
            let h0 = hex_char_exec((u % 16) as u8);
            out.push('\\');
            out.push('u');
            out.push('0');
            out.push('0');
            out.push(h1);
            out.push(h0);
            assert(old(out)@.push('\\').push('u').push('0').push('0').push(h1).push(h0)
                =~= old(out)@ + esc_char(c));
        } else {
            out.push(c);
            assert(old(out)@.push(c) =~= old(out)@ + esc_char(c));
        }
    }
}

/// Appends the quoted, escaped form of `s` to `out`.
pub fn push_quoted(out: &mut Vec<char>, s: &str)
    ensures
        final(out)@ == old(out)@ + quoted(s@),
{
    let n = s.unicode_len();
    out.push('"');
    assert(out@ =~= old(out)@ + seq!['"'] + escape(s@.subrange(0, 0)));
    let mut j: usize = 0;
    while j < n
        invariant
            n == s@.len(),
            j <= n,
            out@ == old(out)@ + seq!['"'] + escape(s@.subrange(0, j as int)),
        decreases n - j,
    {
        let c = s.get_char(j);
        push_esc_char(out, c);
        proof {
            assert(s@.subrange(0, j + 1 as int) =~= s@.subrange(0, j as int).push(c));
            lemma_escape_snoc(s@.subrange(0, j as int), c);
            assert((old(out)@ + seq!['"'] + escape(s@.subrange(0, j as int))) + esc_char(c)
                =~= old(out)@ + seq!['"'] + escape(s@.subrange(0, j + 1 as int)));
        }
        j += 1;
    }
    out.push('"');
    proof {
        assert(s@.subrange(0, n as int) =~= s@);
        assert((old(out)@ + seq!['"'] + escape(s@)).push('"') =~= old(out)@ + quoted(s@));
    }
}

/// Appends an optional string field: its quoted form, or `null`.
pub fn push_opt_quoted(out: &mut Vec<char>, o: &Option<String>)
    ensures
        final(out)@ == old(out)@ + opt_str_text(crate::book::opt_str_view(*o)),
{
    match o {
        Some(s) => push_quoted(out, s.as_str()),
        None => push_null(out),
    }
}

fn push_dec(out: &mut Vec<char>, m: u64)
    ensures
        final(out)@ == old(out)@ + dec_digits(m as nat),
    decreases m,
{
    if m < 10 {
        out.push(digit_char_exec(m as u8));
        assert(old(out)@.push(digit_char(m as nat)) =~= old(out)@ + dec_digits(m as nat));
    } else {
        push_dec(out, m / 10);
        out.push(digit_char_exec((m % 10) as u8));
        assert((old(out)@ + dec_digits((m / 10) as nat)).push(digit_char((m % 10) as nat))
            =~= old(out)@ + (dec_digits((m / 10) as nat) + seq![digit_char((m % 10) as nat)]));
        assert(dec_digits(m as nat) == dec_digits((m / 10) as nat) + seq![digit_char(
            (m % 10) as nat,
        )]);
    }
}

/// Appends the canonical decimal text of `n`.
pub fn push_i64_text(out: &mut Vec<char>, n: i64)
    ensures
        final(out)@ == old(out)@ + int_text(n as int),
{
    if n >= 0 {
        push_dec(out, n as u64);
    } else {
        out.push('-');
        let mag: u64 = ((-(n + 1)) as u64) + 1;
        assert(mag as nat == (-(n as int)) as nat);
        push_dec(out, mag);
        assert(old(out)@.push('-') + dec_digits(mag as nat) =~= old(out)@ + (seq!['-']
            + dec_digits((-(n as int)) as nat)));
    }
}

/// Appends an optional integer field: its decimal text, or `null`.
pub fn push_opt_i32(out: &mut Vec<char>, o: &Option<i32>)
    ensures
        final(out)@ == old(out)@ + opt_int_text(crate::book::opt_int_view(*o)),
{
    match o {
        Some(p) => {
            let w: i64 = *p as i64;
            push_i64_text(out, w);
        },
        None => push_null(out),
    }
}

// ---------------------------------------------------------------------
// Executable parsing
// ---------------------------------------------------------------------

/// Consumes the text `k` at position `i`, returning the position after it.
pub fn expect_lit(v: &Vec<char>, i: usize, k: &str) -> (r: Option<usize>)
    requires
        i <= v@.len(),
    ensures
        match r {
            Option::Some(j) => i <= j <= v@.len() && expect(v@.skip(i as int), k@)
                == Option::Some(v@.skip(j as int)),
            Option::None => expect(v@.skip(i as int), k@) is None,
        },
{
    let klen = k.unicode_len();
    if klen > v.len() - i {
        return None;
    }
    let mut j: usize = 0;
    while j < klen
        invariant
            i + klen <= v@.len(),
            v@.len() <= usize::MAX,
            klen == k@.len(),
            j <= klen,
            forall|m: int| 0 <= m < j ==> v@[i + m] == k@[m],
        decreases klen - j,
    {
        if v[i + j] != k.get_char(j) {
            proof {
                let s = v@.skip(i as int);
                assert(s[j as int] == v@[i + j]);
                assert(s.subrange(0, klen as int)[j as int] == s[j as int]);
                assert(s.subrange(0, klen as int) != k@);
            }
            return None;
        }
        j += 1;
    }
    proof {
        let s = v@.skip(i as int);
        assert(s.subrange(0, klen as int) =~= k@);
        assert(s.skip(klen as int) =~= v@.skip(i + klen));
    }
    Some(i + klen)
}

/// Reads an escaped string body up to its closing quote, starting at `i`.
pub fn parse_string_body_exec(v: &Vec<char>, i: usize) -> (r: Option<(Vec<char>, usize)>)
    requires
        i <= v@.len(),
    ensures
        match r {
            Option::Some(p) => i <= p.1 <= v@.len() && parse_string_body(v@.skip(i as int))
                == Option::Some((p.0@, v@.skip(p.1 as int))),
            Option::None => parse_string_body(v@.skip(i as int)) is None,
        },
    decreases v@.len() - i,
{
    let ghost s = v@.skip(i as int);
    if i >= v.len() {
        assert(s.len() == 0);
        return None;
    }
    let c = v[i];
    assert(c == s[0]);
    if c == '"' {
        let t: Vec<char> = Vec::new();
        assert(s.skip(1) =~= v@.skip(i + 1));
        assert(t@ =~= Seq::<char>::empty());
        return Some((t, i + 1));
    }
    if c == '\\' {
        if i + 1 >= v.len() {
            assert(s.len() < 2);
            return None;
        }
        let d = v[i + 1];
        assert(d == s[1]);
        if d == '"' || d == '\\' {
            assert(s.skip(2) =~= v@.skip(i + 2));
            match parse_string_body_exec(v, i + 2) {
                Some((mut t, j)) => {
                    let ghost t0 = t@;
                    t.insert(0, d);
                    assert(t@ =~= seq![d] + t0);
                    Some((t, j))
                },
                None => None,
            }
        } else if d == 'u' {
            if v.len() - i < 6 {
                assert(s.len() < 6);
                return None;
            }
            assert(s.len() >= 6);
            if v[i + 2] != '0' || v[i + 3] != '0' {
                assert(s[2] == v@[i + 2] && s[3] == v@[i + 3]);
                return None;
            }
            let h1 = match hex_val_exec(v[i + 4]) {
                Some(x) => x,
                None => {
                    assert(s[4] == v@[i + 4]);
                    return None;
                },
            };
            let h0 = match hex_val_exec(v[i + 5]) {
                Some(x) => x,
                None => {
                    assert(s[5] == v@[i + 5]);
                    return None;
                },
            };
            let code = h1 * 16 + h0;
            if code >= 32 {
                assert(s[4] == v@[i + 4] && s[5] == v@[i + 5]);
                return None;
            }
            let ch = (code as u8) as char;
            assert(ch == low_char(hex_val(s[4]) * 16 + hex_val(s[5])));
            assert(s.skip(6) =~= v@.skip(i + 6));
            match parse_string_body_exec(v, i + 6) {
                Some((mut t, j)) => {
                    let ghost t0 = t@;
                    t.insert(0, ch);
                    assert(t@ =~= seq![ch] + t0);
                    Some((t, j))
                },
                None => None,
            }
        } else {
            return None;
        }
    } else {
        assert(s.skip(1) =~= v@.skip(i + 1));
        match parse_string_body_exec(v, i + 1) {
            Some((mut t, j)) => {
                let ghost t0 = t@;
                t.insert(0, c);
                assert(t@ =~= seq![c] + t0);
                Some((t, j))
            },
            None => None,
        }
    }
}

/// Reads a quoted string value starting at `i`.
pub fn parse_quoted_exec(v: &Vec<char>, i: usize) -> (r: Option<(String, usize)>)
    requires
        i <= v@.len(),
    ensures
        match r {
            Option::Some(p) => i <= p.1 <= v@.len() && parse_quoted(v@.skip(i as int))
                == Option::Some((p.0@, v@.skip(p.1 as int))),
            Option::None => parse_quoted(v@.skip(i as int)) is None,
        },
{
    let ghost s = v@.skip(i as int);
    if i >= v.len() || v[i] != '"' {
        if i < v.len() {
            assert(s[0] == v@[i as int]);
        }
        return None;
    }
    assert(s[0] == '"');
    assert(s.skip(1) =~= v@.skip(i + 1));
    match parse_string_body_exec(v, i + 1) {
        Some((t, j)) => Some((chars_to_string(&t), j)),
        None => None,
    }
}

/// Reads an optional string value: a quoted string, or the text `null`.
pub fn parse_opt_str_exec(v: &Vec<char>, i: usize) -> (r: Option<(Option<String>, usize)>)
    requires
        i <= v@.len(),
    ensures
        match r {
            Option::Some(p) => i <= p.1 <= v@.len() && parse_opt_quoted(v@.skip(i as int))
                == Option::Some((crate::book::opt_str_view(p.0), v@.skip(p.1 as int))),
            Option::None => parse_opt_quoted(v@.skip(i as int)) is None,
        },
{
    let ghost s = v@.skip(i as int);
    if i < v.len() && v[i] == '"' {
        assert(s[0] == '"');
        match parse_quoted_exec(v, i) {
            Some((t, j)) => Some((Some(Some(t).unwrap()), j)),
            None => None,
        }
    } else {
        if i < v.len() {
            assert(s[0] == v@[i as int]);
        }
        proof {
            reveal_strlit("null");
            assert(("null")@ =~= null_text());
        }
        match expect_lit(v, i, "null") {
            Some(j) => Some((None, j)),
            None => None,
        }
    }
}

/// Folding digits never decreases the accumulated value.
proof fn lemma_parse_digits_ge(s: Seq<char>, acc: nat)
    ensures
        parse_digits(s, acc).0 >= acc,
    decreases s.len(),
{
    if s.len() > 0 && is_digit(s[0]) {
        lemma_parse_digits_ge(s.skip(1), acc * 10 + digit_val(s[0]));
    }
}

/// Reads a run of digits starting at `i`, folding onto `acc`; gives up
/// once the value passes `0x8000_0000_0000_0000`, which no stored
/// timestamp or page count can reach.
fn parse_digits_exec(v: &Vec<char>, i: usize, acc: u128) -> (r: Option<(u128, usize)>)
    requires
        i <= v@.len(),
        acc <= 0x8000_0000_0000_0000,
    ensures
        match r {
            Option::Some(p) => i <= p.1 <= v@.len() && p.0 <= 0x8000_0000_0000_0000
                && parse_digits(v@.skip(i as int), acc as nat) == (p.0 as nat, v@.skip(
                p.1 as int,
            )),
            Option::None => parse_digits(v@.skip(i as int), acc as nat).0
                > 0x8000_0000_0000_0000,
        },
    decreases v@.len() - i,
{
    let ghost s = v@.skip(i as int);
    if i >= v.len() {
        assert(s.len() == 0);
        return Some((acc, i));
    }
    let c = v[i];
    assert(c == s[0]);
    if !is_digit_exec(c) {
        return Some((acc, i));
    }
    let d = (c as u32 - 48) as u128;
    assert(d as nat == digit_val(c));
    let acc2 = acc * 10 + d;
    assert(s.skip(1) =~= v@.skip(i + 1));
    if acc2 > 0x8000_0000_0000_0000 {
        proof {
            lemma_parse_digits_ge(s.skip(1), acc2 as nat);
        }
        return None;
    }
    parse_digits_exec(v, i + 1, acc2)
}

/// Reads a signed decimal starting at `i`, accepted only inside
/// `[lo, hi]`.
pub fn parse_int_exec(v: &Vec<char>, i: usize, lo: i64, hi: i64) -> (r: Option<(i64, usize)>)
    requires
        i <= v@.len(),
    ensures
        match r {
            Option::Some(p) => i <= p.1 <= v@.len() && lo <= p.0 <= hi && parse_int(
                v@.skip(i as int),
                lo as int,
                hi as int,
            ) == Option::Some((p.0 as int, v@.skip(p.1 as int))),
            Option::None => parse_int(v@.skip(i as int), lo as int, hi as int) is None,
        },
{
    let ghost s = v@.skip(i as int);
    if i >= v.len() {
        assert(s.len() == 0);
        return None;
    }
    let c = v[i];
    assert(c == s[0]);
    if c == '-' {
        if i + 1 >= v.len() {
            assert(s.len() < 2);
            return None;
        }
        if !is_digit_exec(v[i + 1]) {
            assert(s[1] == v@[i + 1]);
            return None;
        }
        assert(s[1] == v@[i + 1]);
        assert(s.skip(1) =~= v@.skip(i + 1));
        match parse_digits_exec(v, i + 1, 0) {
            Some((m, j)) => {
                let n: i64 = if m == 0x8000_0000_0000_0000 {
                    i64::MIN
                } else {
                    -(m as i64)
                };
                assert(n as int == 0 - m as int);
                if lo <= n && n <= hi {
                    Some((n, j))
                } else {
                    None
                }
            },
            None => {
                assert(0 - parse_digits(s.skip(1), 0).0 < lo);
                None
            },
        }
    } else if is_digit_exec(c) {
        assert(s.skip(0) =~= s);
        match parse_digits_exec(v, i, 0) {
            Some((m, j)) => {
                if m > 0x7fff_ffff_ffff_ffff {
                    assert(m as nat > hi as int);
                    return None;
                }
                let n: i64 = m as i64;
                if lo <= n && n <= hi {
                    Some((n, j))
                } else {
                    None
                }
            },
            None => {
                assert(parse_digits(s, 0).0 > hi as int);
                None
            },
        }
    } else {
        None
    }
}

/// Reads an optional integer field: a decimal, or the text `null`.
pub fn parse_opt_int_exec(v: &Vec<char>, i: usize, lo: i64, hi: i64) -> (r: Option<
    (Option<i64>, usize),
>)
    requires
        i <= v@.len(),
    ensures
        match r {
            Option::Some(p) => i <= p.1 <= v@.len() && (p.0 matches Option::Some(n) ==> lo <= n
                <= hi) && parse_opt_int(v@.skip(i as int), lo as int, hi as int)
                == Option::Some((opt_i64_view(p.0), v@.skip(p.1 as int))),
            Option::None => parse_opt_int(v@.skip(i as int), lo as int, hi as int) is None,
        },
{
    let ghost s = v@.skip(i as int);
    if i < v.len() && (v[i] == '-' || is_digit_exec(v[i])) {
        assert(s[0] == v@[i as int]);
        match parse_int_exec(v, i, lo, hi) {
            Some((n, j)) => Some((Some(n), j)),
            None => None,
        }
    } else {
        if i < v.len() {
            assert(s[0] == v@[i as int]);
        }
        proof {
            reveal_strlit("null");
            assert(("null")@ =~= null_text());
        }
        match expect_lit(v, i, "null") {
            Some(j) => Some((None, j)),
            None => None,
        }
    }
}

pub open spec fn opt_i64_view(o: Option<i64>) -> Option<int> {
    match o {
        Option::Some(n) => Option::Some(n as int),
        Option::None => Option::None,
    }
}

// ---------------------------------------------------------------------
// One field of a record: its key text, then its value
// ---------------------------------------------------------------------

pub open spec fn field_str(s: Seq<char>, key: Seq<char>) -> Option<(Seq<char>, Seq<char>)> {
    match expect(s, key) {
        Option::Some(r) => parse_quoted(r),
        Option::None => Option::None,
    }
}

pub open spec fn field_opt_str(s: Seq<char>, key: Seq<char>) -> Option<
    (Option<Seq<char>>, Seq<char>),
> {
    match expect(s, key) {
        Option::Some(r) => parse_opt_quoted(r),
        Option::None => Option::None,
    }
}

pub open spec fn field_int(s: Seq<char>, key: Seq<char>, lo: int, hi: int) -> Option<
    (int, Seq<char>),
> {
    match expect(s, key) {
        Option::Some(r) => parse_int(r, lo, hi),
        Option::None => Option::None,
    }
}

pub open spec fn field_opt_int(s: Seq<char>, key: Seq<char>, lo: int, hi: int) -> Option<
    (Option<int>, Seq<char>),
> {
    match expect(s, key) {
        Option::Some(r) => parse_opt_int(r, lo, hi),
        Option::None => Option::None,
    }
}

/// A rendered string field reads back as the value it was rendered from.
pub proof fn lemma_field_str(key: Seq<char>, t: Seq<char>, rest: Seq<char>)
    ensures
        field_str(key + (quoted(t) + rest), key) == Option::Some((t, rest)),
{
    lemma_expect_prefix(key, quoted(t) + rest);
    lemma_parse_quoted(t, rest);
}

/// A rendered optional string field reads back as it was rendered.
pub proof fn lemma_field_opt_str(key: Seq<char>, o: Option<Seq<char>>, rest: Seq<char>)
    ensures
        field_opt_str(key + (opt_str_text(o) + rest), key) == Option::Some((o, rest)),
{
    lemma_expect_prefix(key, opt_str_text(o) + rest);
    lemma_parse_opt_quoted(o, rest);
}

/// A rendered integer field reads back as the value it was rendered from.
pub proof fn lemma_field_int(key: Seq<char>, n: int, lo: int, hi: int, rest: Seq<char>)
    requires
        lo <= n <= hi,
        rest.len() > 0,
        !is_digit(rest[0]),
    ensures
        field_int(key + (int_text(n) + rest), key, lo, hi) == Option::Some((n, rest)),
{
    lemma_expect_prefix(key, int_text(n) + rest);
    lemma_parse_int(n, lo, hi, rest);
}

/// A rendered optional integer field reads back as it was rendered.
pub proof fn lemma_field_opt_int(key: Seq<char>, o: Option<int>, lo: int, hi: int, rest: Seq<char>)
    requires
        o matches Option::Some(n) ==> lo <= n <= hi,
        rest.len() > 0,
        !is_digit(rest[0]),
    ensures
        field_opt_int(key + (opt_int_text(o) + rest), key, lo, hi) == Option::Some((o, rest)),
{
    lemma_expect_prefix(key, opt_int_text(o) + rest);
    lemma_parse_opt_int(o, lo, hi, rest);
}

pub fn field_str_exec(v: &Vec<char>, i: usize, k: &str) -> (r: Option<(String, usize)>)
    requires
        i <= v@.len(),
    ensures
        match r {
            Option::Some(p) => i <= p.1 <= v@.len() && field_str(v@.skip(i as int), k@)
                == Option::Some((p.0@, v@.skip(p.1 as int))),
            Option::None => field_str(v@.skip(i as int), k@) is None,
        },
{
    match expect_lit(v, i, k) {
        Some(j) => parse_quoted_exec(v, j),
        None => None,
    }
}

pub fn field_opt_str_exec(v: &Vec<char>, i: usize, k: &str) -> (r: Option<(Option<String>, usize)>)
    requires
        i <= v@.len(),
    ensures
        match r {
            Option::Some(p) => i <= p.1 <= v@.len() && field_opt_str(v@.skip(i as int), k@)
                == Option::Some((crate::book::opt_str_view(p.0), v@.skip(p.1 as int))),
            Option::None => field_opt_str(v@.skip(i as int), k@) is None,
        },
{
    match expect_lit(v, i, k) {
        Some(j) => parse_opt_str_exec(v, j),
        None => None,
    }
}

pub fn field_int_exec(v: &Vec<char>, i: usize, k: &str, lo: i64, hi: i64) -> (r: Option<
    (i64, usize),
>)
    requires
        i <= v@.len(),
    ensures
        match r {
            Option::Some(p) => i <= p.1 <= v@.len() && lo <= p.0 <= hi && field_int(
                v@.skip(i as int),
                k@,
                lo as int,
                hi as int,
            ) == Option::Some((p.0 as int, v@.skip(p.1 as int))),
            Option::None => field_int(v@.skip(i as int), k@, lo as int, hi as int) is None,
        },
{
    match expect_lit(v, i, k) {
        Some(j) => parse_int_exec(v, j, lo, hi),
        None => None,
    }
}

pub fn field_opt_int_exec(v: &Vec<char>, i: usize, k: &str, lo: i64, hi: i64) -> (r: Option<
    (Option<i64>, usize),
>)
    requires
        i <= v@.len(),
    ensures
        match r {
            Option::Some(p) => i <= p.1 <= v@.len() && (p.0 matches Option::Some(n) ==> lo <= n
                <= hi) && field_opt_int(v@.skip(i as int), k@, lo as int, hi as int)
                == Option::Some((opt_i64_view(p.0), v@.skip(p.1 as int))),
            Option::None => field_opt_int(v@.skip(i as int), k@, lo as int, hi as int) is None,
        },
{
    match expect_lit(v, i, k) {
        Some(j) => parse_opt_int_exec(v, j, lo, hi),
        None => None,
    }
}

} // verus!
