//! Verified text rendering: decimal integers, booleans, and the
//! single-quoted, escaped form used by `repr` for strings.
//!
//! Every renderer has an exact specification: the executable functions
//! return precisely the character sequence that the corresponding spec
//! function describes.

use vstd::prelude::*;

verus! {

/// The decimal digit character for `d` (meaningful for `0 <= d <= 9`).
pub open spec fn spec_digit_char(d: int) -> char {
    if d == 0 {
        '0'
    } else if d == 1 {
        '1'
    } else if d == 2 {
        '2'
    } else if d == 3 {
        '3'
    } else if d == 4 {
        '4'
    } else if d == 5 {
        '5'
    } else if d == 6 {
        '6'
    } else if d == 7 {
        '7'
    } else if d == 8 {
        '8'
    } else {
        '9'
    }
}

/// Decimal rendering of a non-negative integer, most significant digit
/// first, with no leading zeros (except for the number 0 itself).
pub open spec fn spec_nat_str(n: nat) -> Seq<char>
    decreases n,
{
    if n < 10 {
        seq![spec_digit_char(n as int)]
    } else {
        spec_nat_str(n / 10).push(spec_digit_char((n % 10) as int))
    }
}

/// Decimal rendering of a signed integer: a minus sign followed by the
/// digits of the absolute value.
pub open spec fn spec_int_str(i: int) -> Seq<char> {
    if i < 0 {
        seq!['-'] + spec_nat_str((-i) as nat)
    } else {
        spec_nat_str(i as nat)
    }
}

/// `"True"` or `"False"`.
pub open spec fn spec_bool_str(b: bool) -> Seq<char> {
    if b {
        seq!['T', 'r', 'u', 'e']
    } else {
        seq!['F', 'a', 'l', 's', 'e']
    }
}

/// `"None"`.
pub open spec fn spec_none_str() -> Seq<char> {
    seq!['N', 'o', 'n', 'e']
}

/// The escaped form of one character inside a single-quoted string
/// repr: backslash, quote, newline, carriage return and tab are
/// escaped, every other character stands for itself.
pub open spec fn spec_escape_char(c: char) -> Seq<char> {
    if c == '\\' {
        seq!['\\', '\\']
    } else if c == '\'' {
        seq!['\\', '\'']
    } else if c == '\n' {
        seq!['\\', 'n']
    } else if c == '\r' {
        seq!['\\', 'r']
    } else if c == '\t' {
        seq!['\\', 't']
    } else {
        seq![c]
    }
}

/// The escaped body of a string repr.
pub open spec fn spec_escape(s: Seq<char>) -> Seq<char>
    decreases s.len(),
{
    if s.len() == 0 {
        Seq::empty()
    } else {
        spec_escape_char(s[0]) + spec_escape(s.skip(1))
    }
}

/// The repr of a string: the escaped body between single quotes.
pub open spec fn spec_str_repr(s: Seq<char>) -> Seq<char> {
    seq!['\''] + spec_escape(s) + seq!['\'']
}

/// Relies on `String::push` from std: appends the given character to
/// the end of the string.
#[verifier::external_body]
pub fn push_char(s: &mut String, c: char)
    ensures
        final(s)@ == old(s)@.push(c),
{
    s.push(c);
}

/// The digit character for `d`, executable form.
pub fn digit_char(d: u64) -> (c: char)
    requires
        d <= 9,
    ensures
        c == spec_digit_char(d as int),
{
    match d {
        0 => '0',
        1 => '1',
        2 => '2',
        3 => '3',
        4 => '4',
        5 => '5',
        6 => '6',
        7 => '7',
        8 => '8',
        _ => '9',
    }
}

/// Appends the decimal rendering of `n` to `out`.
pub fn append_nat(out: &mut String, n: u64)
    ensures
        final(out)@ == old(out)@ + spec_nat_str(n as nat),
    decreases n,
{
    if n < 10 {
        let c = digit_char(n);
        push_char(out, c);
        proof {
            assert(old(out)@ + spec_nat_str(n as nat) =~= old(out)@.push(c));
        }
    } else {
        append_nat(out, n / 10);
        let c = digit_char(n % 10);
        push_char(out, c);
        proof {
            assert(old(out)@ + spec_nat_str(n as nat) =~= (old(out)@ + spec_nat_str(
                (n / 10) as nat,
            )).push(c));
        }
    }
}

/// Appends the decimal rendering of `i`, with a leading minus sign for
/// negative numbers.
pub fn append_int(out: &mut String, i: i64)
    ensures
        final(out)@ == old(out)@ + spec_int_str(i as int),
{
    if i >= 0 {
        append_nat(out, i as u64);
    } else {
        push_char(out, '-');
        let m: u64 = (-(i as i128)) as u64;
        assert(m as nat == (-(i as int)) as nat);
        append_nat(out, m);
        proof {
            assert(old(out)@ + spec_int_str(i as int) =~= old(out)@.push('-') + spec_nat_str(
                m as nat,
            ));
        }
    }
}

/// The decimal rendering of `i` as a fresh string.
pub fn int_to_string(i: i64) -> (s: String)
    ensures
        s@ == spec_int_str(i as int),
{
    let mut out = String::new();
    append_int(&mut out, i);
    proof {
        assert(out@ =~= spec_int_str(i as int));
    }
    out
}

/// Appends `"True"` or `"False"`.
pub fn append_bool(out: &mut String, b: bool)
    ensures
        final(out)@ == old(out)@ + spec_bool_str(b),
{
    if b {
        out.append("True");
        proof {
            reveal_strlit("True");
            assert(old(out)@ + spec_bool_str(b) =~= old(out)@ + "True"@);
        }
    } else {
        out.append("False");
        proof {
            reveal_strlit("False");
            assert(old(out)@ + spec_bool_str(b) =~= old(out)@ + "False"@);
        }
    }
}

/// Appends `"None"`.
pub fn append_none(out: &mut String)
    ensures
        final(out)@ == old(out)@ + spec_none_str(),
{
    out.append("None");
    proof {
        reveal_strlit("None");
        assert(old(out)@ + spec_none_str() =~= old(out)@ + "None"@);
    }
}

/// Appends the escaped, single-quoted repr of `s`.
pub fn append_str_repr(out: &mut String, s: &str)
    ensures
        final(out)@ == old(out)@ + spec_str_repr(s@),
{
    push_char(out, '\'');
    let n = s.unicode_len();
    let mut i: usize = 0;
    while i < n
        invariant
            n == s@.len(),
            i <= n,
            out@ == old(out)@.push('\'') + spec_escape(s@.take(i as int)),
        decreases n - i,
    {
        let c = s.get_char(i);
        if c == '\\' {
            push_char(out, '\\');
            push_char(out, '\\');
        } else if c == '\'' {
            push_char(out, '\\');
            push_char(out, '\'');
        } else if c == '\n' {
            push_char(out, '\\');
            push_char(out, 'n');
        } else if c == '\r' {
            push_char(out, '\\');
            push_char(out, 'r');
        } else if c == '\t' {
            push_char(out, '\\');
            push_char(out, 't');
        } else {
            push_char(out, c);
        }
        proof {
            assert(s@.take(i + 1) =~= s@.take(i as int).push(c));
            lemma_escape_snoc(s@.take(i as int), c);
            assert(out@ =~= old(out)@.push('\'') + spec_escape(s@.take(i + 1)));
        }
        i = i + 1;
    }
    push_char(out, '\'');
    proof {
        assert(s@.take(n as int) =~= s@);
        assert(out@ =~= old(out)@ + spec_str_repr(s@));
    }
}

/// Escaping distributes over appending one character at the end.
proof fn lemma_escape_snoc(s: Seq<char>, c: char)
    ensures
        spec_escape(s.push(c)) == spec_escape(s) + spec_escape_char(c),
    decreases s.len(),
{
    if s.len() == 0 {
        assert(s.push(c).skip(1) =~= Seq::<char>::empty());
        assert(s.push(c)[0] == c);
        assert(spec_escape(s.push(c)) == spec_escape_char(c) + spec_escape(Seq::<char>::empty()));
        assert(spec_escape(s.push(c)) =~= spec_escape(s) + spec_escape_char(c));
    } else {
        assert(s.push(c).skip(1) =~= s.skip(1).push(c));
        lemma_escape_snoc(s.skip(1), c);
        assert(s.push(c)[0] == s[0]);
        assert(spec_escape(s.push(c)) == spec_escape_char(s[0]) + (spec_escape(s.skip(1))
            + spec_escape_char(c)));
        assert(spec_escape_char(s[0]) + (spec_escape(s.skip(1)) + spec_escape_char(c))
            =~= (spec_escape_char(s[0]) + spec_escape(s.skip(1))) + spec_escape_char(c));
        assert(spec_escape(s.push(c)) =~= spec_escape(s) + spec_escape_char(c));
    }
}

} // verus!
