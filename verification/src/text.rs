//! Character-level building blocks of the persisted text documents.
//!
//! Everything the persistence layer writes is built from three pieces:
//! fixed literals, unsigned decimal numbers, and quoted strings whose
//! special characters are escaped.  Each piece has a specification-level
//! writer and parser, an executable implementation proved equal to it,
//! and a lemma that parsing undoes writing — the document codecs in
//! [`crate::codec`] assemble their round-trip proofs from these.

use vstd::prelude::*;

verus! {

// ---------------------------------------------------------------------
// Decimal digits.
// ---------------------------------------------------------------------

/// Whether `c` is a decimal digit.
pub open spec fn is_digit(c: char) -> bool {
    48 <= c as u32 <= 57
}

/// Numeric value of a decimal digit character.
pub open spec fn digit_val(c: char) -> int {
    c as u32 - 48
}

/// The character for one decimal digit value.
pub open spec fn digit_char(d: int) -> char {
    if d == 0 { '0' }
    else if d == 1 { '1' }
    else if d == 2 { '2' }
    else if d == 3 { '3' }
    else if d == 4 { '4' }
    else if d == 5 { '5' }
    else if d == 6 { '6' }
    else if d == 7 { '7' }
    else if d == 8 { '8' }
    else { '9' }
}

/// The decimal digit string of `n`, most significant digit first, no
/// leading zeros (just "0" for zero).
pub open spec fn dec_digits(n: nat) -> Seq<char>
    decreases n,
{
    if n < 10 {
        seq![digit_char(n as int)]
    } else {
        dec_digits(n / 10).push(digit_char((n % 10) as int))
    }
}

/// Every character of `dec_digits(n)` is a digit, and there is at
/// least one.
pub proof fn lemma_dec_digits_shape(n: nat)
    ensures
        dec_digits(n).len() >= 1,
        forall|k: int| 0 <= k < dec_digits(n).len() ==> is_digit(#[trigger] dec_digits(n)[k]),
    decreases n,
{
    if n >= 10 {
        lemma_dec_digits_shape(n / 10);
    }
}

/// The value of the digit substring `s[i..j]`, read left to right.
pub open spec fn digits_val(s: Seq<char>, i: int, j: int) -> int
    decreases j - i,
{
    if j <= i {
        0
    } else {
        digits_val(s, i, j - 1) * 10 + digit_val(s[j - 1])
    }
}

/// A digit substring's value is nonnegative.
pub proof fn lemma_digits_val_nonneg(s: Seq<char>, i: int, j: int)
    requires
        forall|k: int| i <= k < j ==> is_digit(#[trigger] s[k]),
    ensures
        digits_val(s, i, j) >= 0,
    decreases j - i,
{
    if j > i {
        lemma_digits_val_nonneg(s, i, j - 1);
    }
}

/// Extending a digit run to the right never decreases its value.
pub proof fn lemma_digits_val_mono(s: Seq<char>, i: int, j1: int, j2: int)
    requires
        i <= j1 <= j2,
        forall|k: int| i <= k < j2 ==> is_digit(#[trigger] s[k]),
    ensures
        digits_val(s, i, j2) >= digits_val(s, i, j1),
    decreases j2 - j1,
{
    if j2 > j1 {
        lemma_digits_val_mono(s, i, j1, j2 - 1);
        lemma_digits_val_nonneg(s, i, j2 - 1);
    }
}

/// One character of a sequence embedded in `s` at position `i`.
pub proof fn lemma_embed_index(s: Seq<char>, i: int, a: Seq<char>, k: int)
    requires
        0 <= i,
        0 <= k < a.len(),
        i + a.len() <= s.len(),
        s.subrange(i, i + a.len()) == a,
    ensures
        s[i + k] == a[k],
{
    assert(s.subrange(i, i + a.len())[k] == s[i + k]);
}

/// A concatenation embedded in `s` splits into its two embedded parts.
pub proof fn lemma_split_embed(s: Seq<char>, i: int, a: Seq<char>, b: Seq<char>)
    requires
        0 <= i,
        i + a.len() + b.len() <= s.len(),
        s.subrange(i, i + a.len() + b.len()) == a + b,
    ensures
        s.subrange(i, i + a.len()) == a,
        s.subrange(i + a.len(), i + a.len() + b.len()) == b,
{
    let l = a.len() + b.len();
    assert(s.subrange(i, i + a.len()) =~= a) by {
        assert forall|k: int| 0 <= k < a.len() implies s.subrange(i, i + a.len() as int)[k]
            == a[k] by {
            assert(s.subrange(i, i + a.len() as int)[k] == s[i + k]);
            assert(s.subrange(i, i + l as int)[k] == s[i + k]);
            assert((a + b)[k] == a[k]);
        }
    }
    assert(s.subrange(i + a.len(), i + a.len() + b.len()) =~= b) by {
        assert forall|k: int| 0 <= k < b.len() implies
            s.subrange(i + a.len() as int, i + l as int)[k] == b[k] by {
            assert(s.subrange(i + a.len() as int, i + l as int)[k] == s[i + a.len() + k]);
            assert(s.subrange(i, i + l as int)[a.len() + k] == s[i + a.len() + k]);
            assert((a + b)[a.len() + k] == b[k]);
        }
    }
}

/// Where `dec_digits(n)` stands embedded in `s`, reading the digits
/// back gives `n`.
pub proof fn lemma_digits_val_embed(s: Seq<char>, i: int, n: nat)
    requires
        0 <= i,
        i + dec_digits(n).len() <= s.len(),
        s.subrange(i, i + dec_digits(n).len()) == dec_digits(n),
    ensures
        digits_val(s, i, i + dec_digits(n).len()) == n,
    decreases n,
{
    let d = dec_digits(n);
    let l = d.len() as int;
    if n < 10 {
        lemma_embed_index(s, i, d, 0);
        assert(s[i + 0] == digit_char(n as int));
        assert(digits_val(s, i, i) == 0);
        assert(digits_val(s, i, i + 1) == digits_val(s, i, i) * 10 + digit_val(s[i]));
    } else {
        let dp = dec_digits(n / 10);
        let lp = dp.len() as int;
        let last = seq![digit_char((n % 10) as int)];
        assert(d =~= dp + last);
        lemma_split_embed(s, i, dp, last);
        lemma_digits_val_embed(s, i, n / 10);
        lemma_embed_index(s, i + lp, last, 0);
        assert(s[i + lp + 0] == digit_char((n % 10) as int));
        assert(digits_val(s, i, i + l)
            == digits_val(s, i, i + l - 1) * 10 + digit_val(s[i + l - 1]));
        assert(i + l - 1 == i + lp);
        assert(digit_val(digit_char((n % 10) as int)) == n % 10);
        assert((n / 10) * 10 + n % 10 == n) by (nonlinear_arith);
    }
}

/// First position at or after `i` that does not hold a digit.
pub open spec fn digit_run_end(s: Seq<char>, i: int) -> int
    recommends
        0 <= i <= s.len(),
    decreases s.len() - i
        when 0 <= i <= s.len()
{
    if i < s.len() && is_digit(s[i]) {
        digit_run_end(s, i + 1)
    } else {
        i
    }
}

/// `digit_run_end` finds exactly the boundary of a digit run.
pub proof fn lemma_digit_run_end_is(s: Seq<char>, i: int, j: int)
    requires
        0 <= i <= j <= s.len(),
        forall|k: int| i <= k < j ==> is_digit(#[trigger] s[k]),
        j == s.len() || !is_digit(s[j]),
    ensures
        digit_run_end(s, i) == j,
    decreases j - i,
{
    if i < j {
        lemma_digit_run_end_is(s, i + 1, j);
    }
}

/// Parse an unsigned 64-bit decimal number at position `i`: the whole
/// digit run starting there, rejected when it is empty or its value
/// does not fit.
pub open spec fn parse_u64_at(s: Seq<char>, i: int) -> Option<(u64, int)>
    recommends
        0 <= i <= s.len(),
{
    let j = digit_run_end(s, i);
    if j == i {
        None
    } else if digits_val(s, i, j) > u64::MAX {
        None
    } else {
        Some((digits_val(s, i, j) as u64, j))
    }
}

/// Parsing at an embedded `dec_digits(n)` that a non-digit (or the end
/// of the text) terminates yields exactly `n`.
pub proof fn lemma_parse_u64_embed(s: Seq<char>, i: int, n: u64)
    requires
        0 <= i,
        i + dec_digits(n as nat).len() <= s.len(),
        s.subrange(i, i + dec_digits(n as nat).len()) == dec_digits(n as nat),
        i + dec_digits(n as nat).len() == s.len()
            || !is_digit(s[i + dec_digits(n as nat).len()]),
    ensures
        parse_u64_at(s, i) == Some((n, i + dec_digits(n as nat).len())),
{
    let d = dec_digits(n as nat);
    let l = d.len() as int;
    lemma_dec_digits_shape(n as nat);
    assert forall|k: int| i <= k < i + l implies is_digit(#[trigger] s[k]) by {
        lemma_embed_index(s, i, d, k - i);
        assert(s[i + (k - i)] == d[k - i]);
    }
    lemma_digit_run_end_is(s, i, i + l);
    lemma_digits_val_embed(s, i, n as nat);
}

// ---------------------------------------------------------------------
// Executable digit helpers.
// ---------------------------------------------------------------------

/// Executable digit test, equal to the specification.
pub fn is_digit_exec(c: char) -> (r: bool)
    ensures
        r == is_digit(c),
{
    '0' <= c && c <= '9'
}

/// Executable digit character, equal to the specification.
pub fn digit_char_exec(d: u64) -> (r: char)
    requires
        d < 10,
    ensures
        r == digit_char(d as int),
{
    if d == 0 { '0' }
    else if d == 1 { '1' }
    else if d == 2 { '2' }
    else if d == 3 { '3' }
    else if d == 4 { '4' }
    else if d == 5 { '5' }
    else if d == 6 { '6' }
    else if d == 7 { '7' }
    else if d == 8 { '8' }
    else { '9' }
}

/// Append the decimal digits of `n`.
pub fn emit_u64(out: &mut Vec<char>, n: u64)
    ensures
        final(out)@ == old(out)@ + dec_digits(n as nat),
    decreases n,
{
    if n < 10 {
        out.push(digit_char_exec(n));
        proof {
            assert(out@ =~= old(out)@ + dec_digits(n as nat));
        }
    } else {
        emit_u64(out, n / 10);
        out.push(digit_char_exec(n % 10));
        proof {
            assert(out@ =~= old(out)@ + dec_digits(n as nat));
        }
    }
}

/// Parse an unsigned 64-bit decimal number at position `i`, exactly as
/// the specification parser does.
pub fn parse_u64_exec(v: &Vec<char>, i: usize) -> (r: Option<(u64, usize)>)
    requires
        i <= v@.len(),
    ensures
        match r {
            Some((n, j)) => parse_u64_at(v@, i as int) == Some((n, j as int)) && j <= v@.len(),
            None => parse_u64_at(v@, i as int) is None,
        },
{
    let mut j: usize = i;
    while j < v.len() && is_digit_exec(v[j])
        invariant
            i <= j <= v@.len(),
            forall|k: int| i <= k < j ==> is_digit(#[trigger] v@[k]),
        decreases v@.len() - j,
    {
        j = j + 1;
    }
    proof {
        lemma_digit_run_end_is(v@, i as int, j as int);
    }
    if j == i {
        return None;
    }
    let mut acc: u64 = 0;
    let mut k: usize = i;
    while k < j
        invariant
            i <= k <= j <= v@.len(),
            forall|q: int| i <= q < j ==> is_digit(#[trigger] v@[q]),
            acc == digits_val(v@, i as int, k as int),
            digit_run_end(v@, i as int) == j,
        decreases j - k,
    {
        let c = v[k];
        let d: u64 = (c as u32 as u64) - 48;
        assert(d == digit_val(c) && d < 10);
        if acc > 1844674407370955161u64 || (acc == 1844674407370955161u64 && d > 5) {
            proof {
                assert(digits_val(v@, i as int, k + 1) > u64::MAX);
                lemma_digits_val_mono(v@, i as int, k + 1, j as int);
            }
            return None;
        }
        acc = acc * 10 + d;
        k = k + 1;
    }
    Some((acc, j))
}

// ---------------------------------------------------------------------
// Fixed literals.
// ---------------------------------------------------------------------

/// Whether the literal `lit` stands in `s` at position `i`.
pub open spec fn match_lit(s: Seq<char>, i: int, lit: Seq<char>) -> bool {
    &&& 0 <= i
    &&& i + lit.len() <= s.len()
    &&& s.subrange(i, i + lit.len()) == lit
}

/// Executable literal match, equal to the specification.
pub fn match_lit_exec(v: &Vec<char>, i: usize, lit: &str) -> (r: bool)
    ensures
        r == match_lit(v@, i as int, lit@),
{
    let n = lit.unicode_len();
    if i > v.len() || n > v.len() - i {
        return false;
    }
    let mut k: usize = 0;
    while k < n
        invariant
            k <= n,
            n == lit@.len(),
            i + n <= v@.len(),
            v@.len() <= usize::MAX,
            forall|q: int| 0 <= q < k ==> v@[i + q] == #[trigger] lit@[q],
        decreases n - k,
    {
        if lit.get_char(k) != v[i + k] {
            proof {
                assert(v@.subrange(i as int, i + lit@.len())[k as int] != lit@[k as int]);
            }
            return false;
        }
        k = k + 1;
    }
    proof {
        assert(v@.subrange(i as int, i + lit@.len()) =~= lit@);
    }
    true
}

/// Append every character of `lit`.
pub fn emit_lit(out: &mut Vec<char>, lit: &str)
    ensures
        final(out)@ == old(out)@ + lit@,
{
    let n = lit.unicode_len();
    let mut k: usize = 0;
    while k < n
        invariant
            k <= n,
            n == lit@.len(),
            out@ == old(out)@ + lit@.subrange(0, k as int),
        decreases n - k,
    {
        out.push(lit.get_char(k));
        proof {
            assert(old(out)@ + lit@.subrange(0, k + 1)
                =~= (old(out)@ + lit@.subrange(0, k as int)).push(lit@[k as int]));
        }
        k = k + 1;
    }
    proof {
        assert(lit@.subrange(0, lit@.len() as int) =~= lit@);
    }
}

// ---------------------------------------------------------------------
// Quoted strings with escapes.
// ---------------------------------------------------------------------

/// The character for one hexadecimal digit value, lower case.
pub open spec fn hex_char(d: int) -> char {
    if d < 10 {
        digit_char(d)
    } else if d == 10 { 'a' }
    else if d == 11 { 'b' }
    else if d == 12 { 'c' }
    else if d == 13 { 'd' }
    else if d == 14 { 'e' }
    else { 'f' }
}

/// Whether `c` is a hexadecimal digit as this codec writes them.
pub open spec fn is_hex(c: char) -> bool {
    is_digit(c) || (97 <= c as u32 <= 102)
}

/// Numeric value of a hexadecimal digit character.
pub open spec fn hex_val(c: char) -> int {
    if is_digit(c) {
        digit_val(c)
    } else {
        c as u32 - 87
    }
}

/// The character with code point `n`, for small code points.
pub open spec fn code_char(n: int) -> char {
    (n as u8) as char
}

/// How one character appears inside a quoted string: quote and
/// backslash get a backslash escape, control characters a four-digit
/// hexadecimal escape, everything else stands for itself.
pub open spec fn esc_char(c: char) -> Seq<char> {
    if c == '"' {
        seq!['\\', '"']
    } else if c == '\\' {
        seq!['\\', '\\']
    } else if (c as u32) < 32 {
        seq!['\\', 'u', '0', '0', hex_char(c as u32 as int / 16), hex_char(c as u32 as int % 16)]
    } else {
        seq![c]
    }
}

/// The escaped form of a whole string.
pub open spec fn esc_string(s: Seq<char>) -> Seq<char>
    decreases s.len(),
{
    if s.len() == 0 {
        Seq::empty()
    } else {
        esc_char(s[0]) + esc_string(s.drop_first())
    }
}

/// Escaping distributes over concatenation.
pub proof fn lemma_esc_string_concat(a: Seq<char>, b: Seq<char>)
    ensures
        esc_string(a + b) == esc_string(a) + esc_string(b),
    decreases a.len(),
{
    if a.len() == 0 {
        assert(a + b =~= b);
        assert(esc_string(a) + esc_string(b) =~= esc_string(b));
    } else {
        assert((a + b).drop_first() =~= a.drop_first() + b);
        lemma_esc_string_concat(a.drop_first(), b);
        assert(esc_char((a + b)[0]) + (esc_string(a.drop_first()) + esc_string(b))
            =~= (esc_char(a[0]) + esc_string(a.drop_first())) + esc_string(b));
    }
}

/// The escaped form of a single character.
pub proof fn lemma_esc_string_one(c: char)
    ensures
        esc_string(seq![c]) == esc_char(c),
{
    let one = seq![c];
    assert(one.len() == 1 && one[0] == c);
    assert(one.drop_first() =~= Seq::<char>::empty());
    assert(esc_string(Seq::<char>::empty()) == Seq::<char>::empty());
    assert(esc_string(one) == esc_char(c) + esc_string(Seq::<char>::empty()));
    assert(esc_char(c) + Seq::<char>::empty() =~= esc_char(c));
}

/// Read a string body at position `i`: characters up to, but not
/// including, an unescaped closing quote, undoing the escapes.  `None`
/// when the text ends before a closing quote or an escape is
/// malformed.
pub open spec fn parse_string_body(s: Seq<char>, i: int) -> Option<(Seq<char>, int)>
    recommends
        0 <= i,
    decreases s.len() - i
        when 0 <= i <= s.len()
{
    if i >= s.len() {
        None
    } else if s[i] == '"' {
        Some((Seq::empty(), i))
    } else if s[i] == '\\' {
        if i + 1 < s.len() && s[i + 1] == '"' {
            cons_parsed('"', parse_string_body(s, i + 2))
        } else if i + 1 < s.len() && s[i + 1] == '\\' {
            cons_parsed('\\', parse_string_body(s, i + 2))
        } else if i + 5 < s.len() && s[i + 1] == 'u' && s[i + 2] == '0' && s[i + 3] == '0'
            && is_hex(s[i + 4]) && is_hex(s[i + 5]) {
            cons_parsed(
                code_char(hex_val(s[i + 4]) * 16 + hex_val(s[i + 5])),
                parse_string_body(s, i + 6),
            )
        } else {
            None
        }
    } else {
        cons_parsed(s[i], parse_string_body(s, i + 1))
    }
}

/// Prepend one decoded character to a string-body parse result.
pub open spec fn cons_parsed(c: char, r: Option<(Seq<char>, int)>) -> Option<(Seq<char>, int)> {
    match r {
        Some((t, j)) => Some((seq![c] + t, j)),
        None => None,
    }
}

/// Parsing at an embedded `esc_string(t)` that a closing quote
/// terminates yields exactly `t`, stopping at the quote.
pub proof fn lemma_parse_esc_embed(s: Seq<char>, i: int, t: Seq<char>)
    requires
        0 <= i,
        i + esc_string(t).len() < s.len(),
        s.subrange(i, i + esc_string(t).len()) == esc_string(t),
        s[i + esc_string(t).len()] == '"',
    ensures
        parse_string_body(s, i) == Some((t, i + esc_string(t).len())),
    decreases t.len(),
{
    let e = esc_string(t);
    let l = e.len() as int;
    if t.len() == 0 {
        assert(s[i] == '"');
    } else {
        let c = t[0];
        let rest = t.drop_first();
        assert(t =~= seq![c] + rest);
        lemma_esc_string_concat(seq![c], rest);
        lemma_esc_string_one(c);
        let ec = esc_char(c);
        let er = esc_string(rest);
        assert(e == ec + er);
        let li = ec.len() as int;
        lemma_split_embed(s, i, ec, er);
        lemma_parse_esc_embed(s, i + li, rest);
        assert forall|k: int| 0 <= k < li implies s[i + k] == ec[k] by {
            lemma_embed_index(s, i, ec, k);
        }
        if c == '"' {
            assert(s[i + 0] == ec[0] && s[i + 1] == ec[1]);
            assert(s[i] == '\\' && s[i + 1] == '"');
            assert(parse_string_body(s, i) == cons_parsed('"', parse_string_body(s, i + 2)));
        } else if c == '\\' {
            assert(s[i + 0] == ec[0] && s[i + 1] == ec[1]);
            assert(s[i] == '\\' && s[i + 1] == '\\');
        } else if (c as u32) < 32 {
            assert(s[i + 0] == ec[0] && s[i + 1] == ec[1] && s[i + 2] == ec[2]
                && s[i + 3] == ec[3] && s[i + 4] == ec[4] && s[i + 5] == ec[5]);
            assert(s[i] == '\\' && s[i + 1] == 'u' && s[i + 2] == '0' && s[i + 3] == '0');
            assert(s[i + 4] == hex_char(c as u32 as int / 16));
            assert(s[i + 5] == hex_char(c as u32 as int % 16));
            lemma_hex_char_val(c as u32 as int / 16);
            lemma_hex_char_val(c as u32 as int % 16);
            assert(hex_val(s[i + 4]) * 16 + hex_val(s[i + 5]) == c as u32) by {
                assert((c as u32 as int / 16) * 16 + c as u32 as int % 16 == c as u32 as int)
                    by (nonlinear_arith);
            }
            vstd::utf8::char_u32_cast(c, c as u32);
            assert(code_char(c as u32 as int) == c);
        } else {
            assert(s[i + 0] == ec[0]);
            assert(s[i] == c);
        }
        assert(seq![c] + rest == t);
    }
}

/// `hex_val` undoes `hex_char` for one hexadecimal digit value.
pub proof fn lemma_hex_char_val(d: int)
    requires
        0 <= d < 16,
    ensures
        is_hex(hex_char(d)),
        hex_val(hex_char(d)) == d,
        hex_char(d) != '"',
        hex_char(d) != '\\',
{
}

/// Executable hexadecimal digit character, equal to the specification.
pub fn hex_char_exec(d: u32) -> (r: char)
    requires
        d < 16,
    ensures
        r == hex_char(d as int),
{
    if d < 10 {
        digit_char_exec(d as u64)
    } else if d == 10 { 'a' }
    else if d == 11 { 'b' }
    else if d == 12 { 'c' }
    else if d == 13 { 'd' }
    else if d == 14 { 'e' }
    else { 'f' }
}

/// Append the escaped form of every character of `s`.
pub fn emit_escaped(out: &mut Vec<char>, s: &Vec<char>)
    ensures
        final(out)@ == old(out)@ + esc_string(s@),
{
    let mut i: usize = 0;
    while i < s.len()
        invariant
            i <= s@.len(),
            out@ == old(out)@ + esc_string(s@.subrange(0, i as int)),
        decreases s@.len() - i,
    {
        let ghost pre = s@.subrange(0, i as int);
        let c = s[i];
        if c == '"' {
            out.push('\\');
            out.push('"');
        } else if c == '\\' {
            out.push('\\');
            out.push('\\');
        } else if (c as u32) < 32 {
            let code = c as u32;
            out.push('\\');
            out.push('u');
            out.push('0');
            out.push('0');
            out.push(hex_char_exec(code / 16));
            out.push(hex_char_exec(code % 16));
        } else {
            out.push(c);
        }
        proof {
            assert(s@.subrange(0, i + 1) =~= pre + seq![c]);
            lemma_esc_string_concat(pre, seq![c]);
            lemma_esc_string_one(c);
            assert(out@ =~= old(out)@ + esc_string(pre + seq![c]));
        }
        i = i + 1;
    }
    proof {
        assert(s@.subrange(0, s@.len() as int) =~= s@);
    }
}

/// Parse a string body at position `i`, exactly as the specification
/// parser does, returning the decoded characters and the position of
/// the closing quote.
pub fn parse_string_body_exec(v: &Vec<char>, i: usize) -> (r: Option<(Vec<char>, usize)>)
    requires
        i <= v@.len(),
    ensures
        match r {
            Some(p) => parse_string_body(v@, i as int) == Some((p.0@, p.1 as int))
                && i <= p.1 <= v@.len(),
            None => parse_string_body(v@, i as int) is None,
        },
{
    let mut acc: Vec<char> = Vec::new();
    let mut k: usize = i;
    let vlen = v.len();
    proof {
        assert(vlen == v@.len());
    }
    while k < v.len()
        invariant
            i <= k <= v@.len(),
            v@.len() <= usize::MAX,
            parse_string_body(v@, i as int)
                == cons_parsed_all(acc@, parse_string_body(v@, k as int)),
        decreases v@.len() - k,
    {
        let ghost before = acc@;
        let c = v[k];
        if c == '"' {
            proof {
                assert(parse_string_body(v@, k as int) == Some((Seq::<char>::empty(), k as int)));
                assert(before + Seq::<char>::empty() =~= before);
            }
            return Some((acc, k));
        } else if c == '\\' {
            if k + 1 < v.len() && v[k + 1] == '"' {
                acc.push('"');
                proof {
                    lemma_cons_parsed_all_push(before, '"', v@, k + 2);
                }
                k = k + 2;
            } else if k + 1 < v.len() && v[k + 1] == '\\' {
                acc.push('\\');
                proof {
                    lemma_cons_parsed_all_push(before, '\\', v@, k + 2);
                }
                k = k + 2;
            } else if v.len() - k > 5 && v[k + 1] == 'u' && v[k + 2] == '0' && v[k + 3] == '0'
                && is_hex_exec(v[k + 4]) && is_hex_exec(v[k + 5]) {
                let code: u32 = hex_val_exec(v[k + 4]) * 16 + hex_val_exec(v[k + 5]);
                let decoded = (code as u8) as char;
                assert(decoded == code_char(hex_val(v@[k + 4]) * 16 + hex_val(v@[k + 5])));
                acc.push(decoded);
                proof {
                    lemma_cons_parsed_all_push(before, decoded, v@, k + 6);
                }
                k = k + 6;
            } else {
                return None;
            }
        } else {
            acc.push(c);
            proof {
                lemma_cons_parsed_all_push(before, c, v@, k + 1);
            }
            k = k + 1;
        }
    }
    None
}

/// Prepend a whole decoded prefix to a string-body parse result.
pub open spec fn cons_parsed_all(prefix: Seq<char>, r: Option<(Seq<char>, int)>)
    -> Option<(Seq<char>, int)> {
    match r {
        Some((t, j)) => Some((prefix + t, j)),
        None => None,
    }
}

/// Growing the accumulated prefix by one decoded character matches one
/// unfolding of the specification parser.
proof fn lemma_cons_parsed_all_push(prefix: Seq<char>, c: char, s: Seq<char>, next: int)
    ensures
        cons_parsed_all(prefix, cons_parsed(c, parse_string_body(s, next)))
            == cons_parsed_all(prefix.push(c), parse_string_body(s, next)),
{
    match parse_string_body(s, next) {
        Some((t, j)) => {
            assert(prefix + (seq![c] + t) =~= prefix.push(c) + t);
        },
        None => {},
    }
}

/// Executable hexadecimal digit test, equal to the specification.
pub fn is_hex_exec(c: char) -> (r: bool)
    ensures
        r == is_hex(c),
{
    ('0' <= c && c <= '9') || ('a' <= c && c <= 'f')
}

/// Executable hexadecimal digit value, equal to the specification.
pub fn hex_val_exec(c: char) -> (r: u32)
    requires
        is_hex(c),
    ensures
        r == hex_val(c),
        r < 16,
{
    if '0' <= c && c <= '9' {
        (c as u32) - 48
    } else {
        (c as u32) - 87
    }
}

// ---------------------------------------------------------------------
// Text conversions.
// ---------------------------------------------------------------------

/// The characters of `s`, one vector element per character.
pub fn str_to_chars(s: &str) -> (v: Vec<char>)
    ensures
        v@ == s@,
{
    let n = s.unicode_len();
    let mut v: Vec<char> = Vec::new();
    let mut k: usize = 0;
    while k < n
        invariant
            k <= n,
            n == s@.len(),
            v@ == s@.subrange(0, k as int),
        decreases n - k,
    {
        v.push(s.get_char(k));
        proof {
            assert(s@.subrange(0, k + 1) =~= s@.subrange(0, k as int).push(s@[k as int]));
        }
        k = k + 1;
    }
    proof {
        assert(s@.subrange(0, s@.len() as int) =~= s@);
    }
    v
}

/// Append one character to a string.  Relies on `String::push`, which
/// appends exactly the given character to the end of the string.
#[verifier::external_body]
fn push_char(s: &mut String, c: char)
    ensures
        final(s)@ == old(s)@.push(c),
{
    s.push(c);
}

/// The string holding exactly the characters of `v`.
pub fn chars_to_string(v: &Vec<char>) -> (s: String)
    ensures
        s@ == v@,
{
    let mut s = String::new();
    let mut k: usize = 0;
    while k < v.len()
        invariant
            k <= v@.len(),
            s@ == v@.subrange(0, k as int),
        decreases v@.len() - k,
    {
        push_char(&mut s, v[k]);
        proof {
            assert(v@.subrange(0, k + 1) =~= v@.subrange(0, k as int).push(v@[k as int]));
        }
        k = k + 1;
    }
    proof {
        assert(v@.subrange(0, v@.len() as int) =~= v@);
    }
    s
}

} // verus!
