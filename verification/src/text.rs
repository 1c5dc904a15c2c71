//! Text building blocks of the exposition format: decimal rendering of the
//! accumulators, fixed-point rendering of histogram values, and escaping of
//! label values and help text; together with parsing functions that invert
//! them, so that a scraper recovers exactly what was encoded.

use vstd::prelude::*;
use vstd::string::StrSliceExecFns;

verus! {

pub open spec fn digit_char(d: int) -> char {
    if d == 0 {
        '0'
    } else if d == 1 {
        '1'
    } else if d == 2 {
        '2'
    } else if d == 3 {
        '3'
    } else if d == 4 {
        '4'
    } else if d == 5 {
        '5'
    } else if d == 6 {
        '6'
    } else if d == 7 {
        '7'
    } else if d == 8 {
        '8'
    } else {
        '9'
    }
}

/// Decimal rendering of an unsigned value, most significant digit first.
pub open spec fn spec_dec(n: nat) -> Seq<char>
    decreases n,
{
    if n < 10 {
        seq![digit_char(n as int)]
    } else {
        spec_dec(n / 10).push(digit_char((n % 10) as int))
    }
}

/// Decimal rendering of a signed value.
pub open spec fn spec_fmt_i64(n: int) -> Seq<char> {
    if n < 0 {
        seq!['-'] + spec_dec((-n) as nat)
    } else {
        spec_dec(n as nat)
    }
}

/// The non-zero fractional part of a fixed-point value, up to three digits
/// with trailing zeros trimmed.
pub open spec fn spec_frac_digits(r: int) -> Seq<char> {
    let d1 = digit_char(r / 100);
    let d2 = digit_char((r / 10) % 10);
    let d3 = digit_char(r % 10);
    if r % 10 != 0 {
        seq![d1, d2, d3]
    } else if (r / 10) % 10 != 0 {
        seq![d1, d2]
    } else {
        seq![d1]
    }
}

/// Decimal rendering of a fixed-point value counted in thousandths: a whole
/// value renders without a fraction.
pub open spec fn spec_fmt_millis(n: nat) -> Seq<char> {
    if n % 1000 == 0 {
        spec_dec(n / 1000)
    } else {
        spec_dec(n / 1000) + seq!['.'] + spec_frac_digits((n % 1000) as int)
    }
}

/// Canonical rendering of a finite bucket bound: always carries a fraction,
/// so a whole bound renders with a single trailing zero.
pub open spec fn spec_fmt_bound(n: nat) -> Seq<char> {
    if n % 1000 == 0 {
        spec_dec(n / 1000) + seq!['.', '0']
    } else {
        spec_fmt_millis(n)
    }
}

/// How one character of a label value is escaped: backslash, double quote and
/// newline hide behind a backslash.
pub open spec fn esc_label_char(c: char) -> Seq<char> {
    if c == '\\' {
        seq!['\\', '\\']
    } else if c == '"' {
        seq!['\\', '"']
    } else if c == '\n' {
        seq!['\\', 'n']
    } else {
        seq![c]
    }
}

/// A label value with every character escaped.
pub open spec fn spec_escape_label(s: Seq<char>) -> Seq<char>
    decreases s.len(),
{
    if s.len() == 0 {
        Seq::empty()
    } else {
        esc_label_char(s[0]) + spec_escape_label(s.drop_first())
    }
}

/// How one character of help text is escaped: only backslash and newline.
pub open spec fn esc_help_char(c: char) -> Seq<char> {
    if c == '\\' {
        seq!['\\', '\\']
    } else if c == '\n' {
        seq!['\\', 'n']
    } else {
        seq![c]
    }
}

/// Help text with every character escaped.
pub open spec fn spec_escape_help(s: Seq<char>) -> Seq<char>
    decreases s.len(),
{
    if s.len() == 0 {
        Seq::empty()
    } else {
        esc_help_char(s[0]) + spec_escape_help(s.drop_first())
    }
}

/// Relies on `String::push`: appends the given character to the end of the
/// string.
#[verifier::external_body]
pub(crate) fn push_char(out: &mut String, c: char)
    ensures
        final(out)@ == old(out)@.push(c),
{
    out.push(c);
}

/// The character of one decimal digit.
fn digit_char_exec(d: u64) -> (c: char)
    requires
        d < 10,
    ensures
        c == digit_char(d as int),
{
    match d {
        0 => '0',
        1 => '1',
        2 => '2',
        3 => '3',
        4 => '4',
        5 => '5',
        6 => '6',
        7 => '7',
        8 => '8',
        _ => '9',
    }
}

/// Appends the decimal rendering of `n`.
pub fn push_u64(out: &mut String, n: u64)
    ensures
        final(out)@ == old(out)@ + spec_dec(n as nat),
    decreases n,
{
    if n >= 10 {
        push_u64(out, n / 10);
        let c = digit_char_exec(n % 10);
        push_char(out, c);
        proof {
            assert(out@ =~= old(out)@ + spec_dec(n as nat));
        }
    } else {
        let c = digit_char_exec(n);
        push_char(out, c);
        proof {
            assert(out@ =~= old(out)@ + spec_dec(n as nat));
        }
    }
}

/// The decimal rendering of `n` as a fresh string.
pub fn fmt_u64(n: u64) -> (r: String)
    ensures
        r@ == spec_dec(n as nat),
{
    let mut s = String::new();
    push_u64(&mut s, n);
    proof {
        assert(s@ =~= spec_dec(n as nat));
    }
    s
}

/// Appends the decimal rendering of a signed value.
pub fn push_i64(out: &mut String, n: i64)
    ensures
        final(out)@ == old(out)@ + spec_fmt_i64(n as int),
{
    if n < 0 {
        push_char(out, '-');
        let m: u64 = if n == i64::MIN {
            9223372036854775808u64
        } else {
            (-n) as u64
        };
        push_u64(out, m);
        proof {
            assert(out@ =~= old(out)@ + spec_fmt_i64(n as int));
        }
    } else {
        push_u64(out, n as u64);
    }
}

/// Appends the fixed-point rendering of a value counted in thousandths.
pub fn push_millis(out: &mut String, n: u64)
    ensures
        final(out)@ == old(out)@ + spec_fmt_millis(n as nat),
{
    push_u64(out, n / 1000);
    let r = n % 1000;
    if r != 0 {
        push_char(out, '.');
        let d1 = digit_char_exec(r / 100);
        let d2 = digit_char_exec((r / 10) % 10);
        let d3 = digit_char_exec(r % 10);
        push_char(out, d1);
        if d3 != digit_char_exec(0) {
            push_char(out, d2);
            push_char(out, d3);
        } else if d2 != digit_char_exec(0) {
            push_char(out, d2);
        }
        proof {
            assert(out@ =~= old(out)@ + spec_fmt_millis(n as nat));
        }
    } else {
        proof {
            assert(out@ =~= old(out)@ + spec_fmt_millis(n as nat));
        }
    }
}

/// Appends the canonical rendering of a finite bucket bound.
pub fn push_bound(out: &mut String, n: u64)
    ensures
        final(out)@ == old(out)@ + spec_fmt_bound(n as nat),
{
    if n % 1000 == 0 {
        push_u64(out, n / 1000);
        push_char(out, '.');
        push_char(out, '0');
        proof {
            assert(out@ =~= old(out)@ + spec_fmt_bound(n as nat));
        }
    } else {
        push_millis(out, n);
    }
}

/// Appends a label value with its characters escaped.
pub fn push_escaped_label(out: &mut String, s: &str)
    ensures
        final(out)@ == old(out)@ + spec_escape_label(s@),
{
    let n = s.unicode_len();
    let mut i: usize = 0;
    while i < n
        invariant
            i <= n,
            n == s@.len(),
            out@ == old(out)@ + spec_escape_label(s@.take(i as int)),
        decreases n - i,
    {
        let c = s.get_char(i);
        if c == '\\' {
            push_char(out, '\\');
            push_char(out, '\\');
        } else if c == '"' {
            push_char(out, '\\');
            push_char(out, '"');
        } else if c == '\n' {
            push_char(out, '\\');
            push_char(out, 'n');
        } else {
            push_char(out, c);
        }
        proof {
            lemma_escape_label_snoc(s@, i as int);
            assert(out@ =~= old(out)@ + spec_escape_label(s@.take(i as int + 1)));
        }
        i += 1;
    }
    proof {
        assert(s@.take(n as int) =~= s@);
    }
}

/// Appends help text with its characters escaped.
pub fn push_escaped_help(out: &mut String, s: &str)
    ensures
        final(out)@ == old(out)@ + spec_escape_help(s@),
{
    let n = s.unicode_len();
    let mut i: usize = 0;
    while i < n
        invariant
            i <= n,
            n == s@.len(),
            out@ == old(out)@ + spec_escape_help(s@.take(i as int)),
        decreases n - i,
    {
        let c = s.get_char(i);
        if c == '\\' {
            push_char(out, '\\');
            push_char(out, '\\');
        } else if c == '\n' {
            push_char(out, '\\');
            push_char(out, 'n');
        } else {
            push_char(out, c);
        }
        proof {
            lemma_escape_help_snoc(s@, i as int);
            assert(out@ =~= old(out)@ + spec_escape_help(s@.take(i as int + 1)));
        }
        i += 1;
    }
    proof {
        assert(s@.take(n as int) =~= s@);
    }
}

/// Escaping a string one character longer appends that character's escape.
pub proof fn lemma_escape_label_snoc(s: Seq<char>, i: int)
    requires
        0 <= i < s.len(),
    ensures
        spec_escape_label(s.take(i + 1)) == spec_escape_label(s.take(i)) + esc_label_char(s[i]),
    decreases i,
{
    if i == 0 {
        assert(s.take(1).drop_first() =~= s.take(0));
        assert(spec_escape_label(s.take(1)) =~= spec_escape_label(s.take(0)) + esc_label_char(
            s[0],
        ));
    } else {
        lemma_escape_label_snoc(s.drop_first(), i - 1);
        assert(s.take(i + 1).drop_first() =~= s.drop_first().take(i));
        assert(s.take(i).drop_first() =~= s.drop_first().take(i - 1));
        assert(spec_escape_label(s.take(i + 1)) =~= spec_escape_label(s.take(i)) + esc_label_char(
            s[i],
        ));
    }
}

/// Escaping help text one character longer appends that character's escape.
pub proof fn lemma_escape_help_snoc(s: Seq<char>, i: int)
    requires
        0 <= i < s.len(),
    ensures
        spec_escape_help(s.take(i + 1)) == spec_escape_help(s.take(i)) + esc_help_char(s[i]),
    decreases i,
{
    if i == 0 {
        assert(s.take(1).drop_first() =~= s.take(0));
        assert(spec_escape_help(s.take(1)) =~= spec_escape_help(s.take(0)) + esc_help_char(s[0]));
    } else {
        lemma_escape_help_snoc(s.drop_first(), i - 1);
        assert(s.take(i + 1).drop_first() =~= s.drop_first().take(i));
        assert(s.take(i).drop_first() =~= s.drop_first().take(i - 1));
        assert(spec_escape_help(s.take(i + 1)) =~= spec_escape_help(s.take(i)) + esc_help_char(
            s[i],
        ));
    }
}

/// The numeric value of one decimal digit character, or a marker for any
/// other character.
pub open spec fn digit_val(c: char) -> int {
    if c == '0' {
        0
    } else if c == '1' {
        1
    } else if c == '2' {
        2
    } else if c == '3' {
        3
    } else if c == '4' {
        4
    } else if c == '5' {
        5
    } else if c == '6' {
        6
    } else if c == '7' {
        7
    } else if c == '8' {
        8
    } else if c == '9' {
        9
    } else {
        -1
    }
}

/// What a scraper computes from an unsigned decimal field.
pub open spec fn spec_parse_dec(s: Seq<char>) -> int
    decreases s.len(),
{
    if s.len() == 0 {
        0
    } else {
        spec_parse_dec(s.drop_last()) * 10 + digit_val(s.last())
    }
}

/// What a scraper recovers from an escaped label value.
pub open spec fn spec_unescape_label(s: Seq<char>) -> Seq<char>
    decreases s.len(),
{
    if s.len() == 0 {
        Seq::empty()
    } else if s[0] == '\\' {
        if s.len() >= 2 {
            unesc_pair(s[1]) + spec_unescape_label(s.skip(2))
        } else {
            Seq::empty()
        }
    } else {
        seq![s[0]] + spec_unescape_label(s.drop_first())
    }
}

/// The character an escape pair stands for.
pub open spec fn unesc_pair(c: char) -> Seq<char> {
    if c == 'n' {
        seq!['\n']
    } else {
        seq![c]
    }
}

/// Parsing a rendered decimal recovers the value: the numeric fields of the
/// exposition text round-trip exactly.
pub proof fn lemma_decimal_round_trip(n: nat)
    ensures
        spec_parse_dec(spec_dec(n)) == n,
    decreases n,
{
    if n < 10 {
        assert(spec_dec(n) == seq![digit_char(n as int)]);
        assert(spec_dec(n).drop_last() =~= Seq::<char>::empty());
        assert(spec_dec(n).last() == digit_char(n as int));
        assert(spec_parse_dec(Seq::<char>::empty()) == 0);
        assert(digit_val(digit_char(n as int)) == n);
        assert(spec_parse_dec(spec_dec(n)) == n);
    } else {
        lemma_decimal_round_trip(n / 10);
        assert(spec_dec(n) == spec_dec(n / 10).push(digit_char((n % 10) as int)));
        assert(spec_dec(n).drop_last() =~= spec_dec(n / 10));
        assert(spec_dec(n).last() == digit_char((n % 10) as int));
        assert(digit_val(digit_char((n % 10) as int)) == n % 10);
        assert(n / 10 * 10 + n % 10 == n) by {
            vstd::arithmetic::div_mod::lemma_fundamental_div_mod(n as int, 10);
        }
        assert(spec_parse_dec(spec_dec(n)) == n);
    }
}

/// Unescaping an escaped label value recovers it: the label values of the
/// exposition text round-trip exactly.
pub proof fn lemma_label_escape_round_trip(s: Seq<char>)
    ensures
        spec_unescape_label(spec_escape_label(s)) == s,
    decreases s.len(),
{
    if s.len() == 0 {
        assert(spec_unescape_label(spec_escape_label(s)) =~= s);
    } else {
        lemma_label_escape_round_trip(s.drop_first());
        let e = esc_label_char(s[0]) + spec_escape_label(s.drop_first());
        assert(spec_escape_label(s) == e);
        if s[0] == '\\' || s[0] == '"' || s[0] == '\n' {
            assert(e.skip(2) =~= spec_escape_label(s.drop_first()));
            assert(spec_unescape_label(e) =~= s);
        } else {
            assert(e.drop_first() =~= spec_escape_label(s.drop_first()));
            assert(spec_unescape_label(e) =~= s);
        }
    }
}

/// Where a scraper's scan for the closing quote of a label value stops: the
/// index of the first quote that does not sit behind a backslash, or the
/// whole length when there is none.
pub open spec fn quote_scan(s: Seq<char>) -> int
    decreases s.len(),
{
    if s.len() == 0 {
        0
    } else if s[0] == '"' {
        0
    } else if s[0] == '\\' {
        if s.len() == 1 {
            1
        } else {
            2 + quote_scan(s.skip(2))
        }
    } else {
        1 + quote_scan(s.drop_first())
    }
}

/// The quote scan never stops inside an escaped value: in
/// `escape(v) + '"' + rest` the first unescaped quote is exactly the one
/// written after the value, so a scraper cuts out precisely the escaped value
/// and unescaping it recovers `v` — whatever quotes, backslashes or newlines
/// `v` holds.
pub proof fn lemma_quote_scan_finds_end(v: Seq<char>, rest: Seq<char>)
    ensures
        ({
            let s = spec_escape_label(v) + seq!['"'] + rest;
            &&& quote_scan(s) == spec_escape_label(v).len()
            &&& s.take(quote_scan(s)) == spec_escape_label(v)
            &&& spec_unescape_label(s.take(quote_scan(s))) == v
        }),
    decreases v.len(),
{
    let e = spec_escape_label(v);
    let s = e + seq!['"'] + rest;
    if v.len() == 0 {
        assert(e =~= Seq::<char>::empty());
        assert(s[0] == '"');
        assert(s.take(0) =~= e);
        lemma_label_escape_round_trip(v);
    } else {
        lemma_quote_scan_finds_end(v.drop_first(), rest);
        let e1 = spec_escape_label(v.drop_first());
        let s1 = e1 + seq!['"'] + rest;
        if v[0] == '\\' || v[0] == '"' || v[0] == '\n' {
            assert(s[0] == '\\');
            assert(s.len() >= 2);
            assert(s.skip(2) =~= s1);
            assert(quote_scan(s) == 2 + quote_scan(s1));
            assert(e.len() == 2 + e1.len());
            assert(s.take(quote_scan(s)) =~= e);
        } else {
            assert(s[0] == v[0]);
            assert(s[0] != '"' && s[0] != '\\');
            assert(s.drop_first() =~= s1);
            assert(quote_scan(s) == 1 + quote_scan(s1));
            assert(e.len() == 1 + e1.len());
            assert(s.take(quote_scan(s)) =~= e);
        }
        lemma_label_escape_round_trip(v);
    }
}

} // verus!
