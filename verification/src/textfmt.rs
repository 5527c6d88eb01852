//! Text rendering primitives shared by the JSON result views and the error
//! messages: decimal and hexadecimal digit sequences, and JSON string
//! escaping in the style of the usual JSON encoders.

use vstd::prelude::*;
use vstd::string::StrSliceExecFns;
use vstd::string::StringExecFns;

verus! {

/// The decimal digit character for `d` (0..=9).
pub open spec fn spec_digit(d: int) -> char {
    if d == 0 { '0' } else if d == 1 { '1' } else if d == 2 { '2' } else if d == 3 { '3' }
    else if d == 4 { '4' } else if d == 5 { '5' } else if d == 6 { '6' } else if d == 7 { '7' }
    else if d == 8 { '8' } else { '9' }
}

/// The lower-case hexadecimal digit character for `d` (0..=15).
pub open spec fn spec_hex_digit(d: int) -> char {
    if d < 10 { spec_digit(d) } else if d == 10 { 'a' } else if d == 11 { 'b' }
    else if d == 12 { 'c' } else if d == 13 { 'd' } else if d == 14 { 'e' } else { 'f' }
}

fn digit_char(d: u64) -> (c: char)
    requires
        d < 10,
    ensures
        c == spec_digit(d as int),
{
    match d {
        0 => '0',
        1 => '1',
        2 => '2',
        3 => '3',
        4 => '4',
        5 => '5',
        6 => '6',
        7 => '7',
        8 => '8',
        _ => '9',
    }
}

fn hex_digit_char(d: u64) -> (c: char)
    requires
        d < 16,
    ensures
        c == spec_hex_digit(d as int),
{
    match d {
        10 => 'a',
        11 => 'b',
        12 => 'c',
        13 => 'd',
        14 => 'e',
        15 => 'f',
        _ => digit_char(d),
    }
}

/// Relies on std's `String::push`: appends exactly the given character.
#[verifier::external_body]
pub fn push_char(s: &mut String, c: char)
    ensures
        final(s)@ == old(s)@.push(c),
{
    s.push(c);
}

/// The ordinary decimal rendering of `n`, without leading zeros
/// (a single `'0'` for zero).
pub open spec fn spec_dec_nat(n: nat) -> Seq<char>
    decreases n,
{
    if n < 10 {
        seq![spec_digit(n as int)]
    } else {
        spec_dec_nat(n / 10).push(spec_digit((n % 10) as int))
    }
}

/// The decimal rendering of a signed number: a leading `'-'` for negatives.
pub open spec fn spec_dec_int(n: int) -> Seq<char> {
    if n < 0 {
        seq!['-'] + spec_dec_nat((-n) as nat)
    } else {
        spec_dec_nat(n as nat)
    }
}

pub fn u64_to_dec(n: u64) -> (s: String)
    ensures
        s@ == spec_dec_nat(n as nat),
    decreases n,
{
    if n < 10 {
        let mut s = String::new();
        push_char(&mut s, digit_char(n));
        proof {
            assert(s@ =~= seq![spec_digit(n as int)]);
        }
        s
    } else {
        let mut s = u64_to_dec(n / 10);
        push_char(&mut s, digit_char(n % 10));
        s
    }
}

pub fn i64_to_dec(n: i64) -> (s: String)
    ensures
        s@ == spec_dec_int(n as int),
{
    if n >= 0 {
        u64_to_dec(n as u64)
    } else {
        let wide: i128 = n as i128;
        let mag: u64 = (-wide) as u64;
        proof {
            assert(0 <= -(n as int) < 0x10000000000000000);
            assert(mag as int == -(n as int));
        }
        let mut s = String::new();
        push_char(&mut s, '-');
        let digits = u64_to_dec(mag);
        s.append(digits.as_str());
        proof {
            assert(s@ =~= seq!['-'] + spec_dec_nat(mag as nat));
        }
        s
    }
}

/// Exactly `width` decimal digits of `n` (mod `10^width`), zero padded.
pub open spec fn spec_dec_fixed(n: nat, width: nat) -> Seq<char>
    decreases width,
{
    if width == 0 {
        Seq::empty()
    } else {
        spec_dec_fixed(n / 10, (width - 1) as nat).push(spec_digit((n % 10) as int))
    }
}

pub fn u64_to_dec_fixed(n: u64, width: u64) -> (s: String)
    ensures
        s@ == spec_dec_fixed(n as nat, width as nat),
    decreases width,
{
    if width == 0 {
        let s = String::new();
        proof {
            assert(s@ =~= Seq::<char>::empty());
        }
        s
    } else {
        let mut s = u64_to_dec_fixed(n / 10, width - 1);
        push_char(&mut s, digit_char(n % 10));
        s
    }
}

/// Exactly `width` lower-case hexadecimal digits of `n` (mod `16^width`),
/// zero padded.
pub open spec fn spec_hex_fixed(n: nat, width: nat) -> Seq<char>
    decreases width,
{
    if width == 0 {
        Seq::empty()
    } else {
        spec_hex_fixed(n / 16, (width - 1) as nat).push(spec_hex_digit((n % 16) as int))
    }
}

pub fn u64_to_hex_fixed(n: u64, width: u64) -> (s: String)
    ensures
        s@ == spec_hex_fixed(n as nat, width as nat),
    decreases width,
{
    if width == 0 {
        let s = String::new();
        proof {
            assert(s@ =~= Seq::<char>::empty());
        }
        s
    } else {
        let mut s = u64_to_hex_fixed(n / 16, width - 1);
        push_char(&mut s, hex_digit_char(n % 16));
        s
    }
}

/// How one character is written inside a JSON string literal: quote and
/// backslash get a backslash escape, the usual control characters get their
/// short escapes, any other control character a `\u00XX` escape, and
/// everything else stands for itself.
pub open spec fn spec_esc_char(c: char) -> Seq<char> {
    if c == '"' {
        seq!['\\', '"']
    } else if c == '\\' {
        seq!['\\', '\\']
    } else if c == '\u{8}' {
        seq!['\\', 'b']
    } else if c == '\u{c}' {
        seq!['\\', 'f']
    } else if c == '\n' {
        seq!['\\', 'n']
    } else if c == '\r' {
        seq!['\\', 'r']
    } else if c == '\t' {
        seq!['\\', 't']
    } else if (c as u32) < 0x20 {
        seq!['\\', 'u', '0', '0', spec_hex_digit((c as u32 / 16) as int), spec_hex_digit(
            (c as u32 % 16) as int,
        )]
    } else {
        seq![c]
    }
}

/// The body (between the quotes) of the JSON string literal for `s`.
pub open spec fn spec_json_str_body(s: Seq<char>) -> Seq<char>
    decreases s.len(),
{
    if s.len() == 0 {
        Seq::empty()
    } else {
        spec_esc_char(s[0]) + spec_json_str_body(s.drop_first())
    }
}

/// The complete JSON string literal for `s`, quotes included.
pub open spec fn spec_json_string(s: Seq<char>) -> Seq<char> {
    seq!['"'] + spec_json_str_body(s) + seq!['"']
}

pub proof fn lemma_json_str_body_push(s: Seq<char>, c: char)
    ensures
        spec_json_str_body(s.push(c)) == spec_json_str_body(s) + spec_esc_char(c),
    decreases s.len(),
{
    if s.len() == 0 {
        assert(s.push(c)[0] == c);
        assert(s.push(c).drop_first() =~= Seq::<char>::empty());
        assert(spec_json_str_body(s.push(c)) == spec_esc_char(c) + spec_json_str_body(
            Seq::<char>::empty(),
        ));
        assert(spec_json_str_body(Seq::<char>::empty()) == Seq::<char>::empty());
        assert(spec_json_str_body(s) == Seq::<char>::empty());
        assert(spec_json_str_body(s.push(c)) =~= spec_json_str_body(s) + spec_esc_char(c));
    } else {
        lemma_json_str_body_push(s.drop_first(), c);
        assert(s.push(c).drop_first() =~= s.drop_first().push(c));
        assert(s.push(c)[0] == s[0]);
        assert(spec_json_str_body(s.push(c)) == spec_esc_char(s[0]) + spec_json_str_body(
            s.drop_first().push(c),
        ));
        assert(spec_esc_char(s[0]) + (spec_json_str_body(s.drop_first()) + spec_esc_char(c)) =~= (
        spec_esc_char(s[0]) + spec_json_str_body(s.drop_first())) + spec_esc_char(c));
    }
}

fn push_escaped_char(out: &mut String, c: char)
    ensures
        final(out)@ == old(out)@ + spec_esc_char(c),
{
    let ghost orig: Seq<char> = out@;
    if c == '"' {
        push_char(out, '\\');
        push_char(out, '"');
        proof {
            assert(out@ =~= orig + spec_esc_char(c));
        }
    } else if c == '\\' {
        push_char(out, '\\');
        push_char(out, '\\');
        proof {
            assert(out@ =~= orig + spec_esc_char(c));
        }
    } else if c == '\u{8}' {
        push_char(out, '\\');
        push_char(out, 'b');
        proof {
            assert(out@ =~= orig + spec_esc_char(c));
        }
    } else if c == '\u{c}' {
        push_char(out, '\\');
        push_char(out, 'f');
        proof {
            assert(out@ =~= orig + spec_esc_char(c));
        }
    } else if c == '\n' {
        push_char(out, '\\');
        push_char(out, 'n');
        proof {
            assert(out@ =~= orig + spec_esc_char(c));
        }
    } else if c == '\r' {
        push_char(out, '\\');
        push_char(out, 'r');
        proof {
            assert(out@ =~= orig + spec_esc_char(c));
        }
    } else if c == '\t' {
        push_char(out, '\\');
        push_char(out, 't');
        proof {
            assert(out@ =~= orig + spec_esc_char(c));
        }
    } else {
        let code: u32 = c as u32;
        if code < 0x20 {
            push_char(out, '\\');
            push_char(out, 'u');
            push_char(out, '0');
            push_char(out, '0');
            push_char(out, hex_digit_char((code / 16) as u64));
            push_char(out, hex_digit_char((code % 16) as u64));
            proof {
                assert(out@ =~= orig + spec_esc_char(c));
            }
        } else {
            push_char(out, c);
            proof {
                assert(out@ =~= orig + spec_esc_char(c));
            }
        }
    }
}

/// Appends the JSON string literal for `s`, quotes and escapes included.
pub fn append_json_string(out: &mut String, s: &str)
    ensures
        final(out)@ == old(out)@ + spec_json_string(s@),
{
    let ghost orig: Seq<char> = out@;
    push_char(out, '"');
    let n: usize = s.unicode_len();
    let mut i: usize = 0;
    while i < n
        invariant
            i <= n,
            n == s@.len(),
            out@ == orig.push('"') + spec_json_str_body(s@.take(i as int)),
        decreases n - i,
    {
        let c: char = s.get_char(i);
        push_escaped_char(out, c);
        proof {
            lemma_json_str_body_push(s@.take(i as int), s@[i as int]);
            assert(s@.take(i as int).push(s@[i as int]) =~= s@.take(i + 1 as int));
            assert(out@ =~= orig.push('"') + spec_json_str_body(s@.take(i + 1 as int)));
        }
        i = i + 1;
    }
    push_char(out, '"');
    proof {
        assert(s@.take(n as int) =~= s@);
        assert(out@ =~= orig + spec_json_string(s@));
    }
}

} // verus!
