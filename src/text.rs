//! Rendering of printed text: decimal integers and the `\n` escape.
use vstd::prelude::*;
use crate::semantics::{abs, digit_char, digits, int_text, unescape};

verus! {

fn digit(d: u32) -> (c: char)
    requires
        d < 10,
    ensures
        c == digit_char(d as nat),
{
    if d == 0 { '0' }
    else if d == 1 { '1' }
    else if d == 2 { '2' }
    else if d == 3 { '3' }
    else if d == 4 { '4' }
    else if d == 5 { '5' }
    else if d == 6 { '6' }
    else if d == 7 { '7' }
    else if d == 8 { '8' }
    else { '9' }
}

fn push_digits(n: u32, out: &mut Vec<char>)
    ensures
        final(out)@ == old(out)@ + digits(n as nat),
    decreases n,
{
    if n >= 10 {
        push_digits(n / 10, out);
    }
    out.push(digit(n % 10));
    proof {
        if n >= 10 {
            assert(digits(n as nat) == digits((n / 10) as nat).push(digit_char((n % 10) as nat)));
        }
        assert(final(out)@ =~= old(out)@ + digits(n as nat));
    }
}

/// Appends the decimal text of `n`, with a leading `-` when negative.
pub fn push_int(n: i32, out: &mut Vec<char>)
    ensures
        final(out)@ == old(out)@ + int_text(n),
{
    if n < 0 {
        out.push('-');
        let m = (-(n as i64)) as u32;
        assert(m as nat == abs(n as int));
        push_digits(m, out);
        assert(final(out)@ =~= old(out)@ + int_text(n));
    } else {
        push_digits(n as u32, out);
    }
}

/// The text with each two-character sequence `\n` replaced by a newline.
pub fn unescape_newlines(s: &Vec<char>) -> (r: Vec<char>)
    ensures
        r@ == unescape(s@),
{
    let mut out: Vec<char> = Vec::new();
    let mut i: usize = 0;
    proof {
        assert(s@.skip(0) =~= s@);
        assert(out@ + unescape(s@) =~= unescape(s@));
    }
    while i < s.len()
        invariant
            i <= s@.len(),
            unescape(s@) == out@ + unescape(s@.skip(i as int)),
        decreases s@.len() - i,
    {
        let ghost rest = s@.skip(i as int);
        if i + 1 < s.len() && s[i] == '\\' && s[i + 1] == 'n' {
            out.push('\n');
            proof {
                assert(rest.skip(2) =~= s@.skip(i + 2));
                assert(unescape(rest) == seq!['\n'] + unescape(rest.skip(2)));
            }
            i = i + 2;
        } else {
            out.push(s[i]);
            proof {
                assert(rest.skip(1) =~= s@.skip(i + 1));
                assert(unescape(rest) == seq![s@[i as int]] + unescape(rest.skip(1)));
            }
            i = i + 1;
        }
        proof {
            assert(unescape(s@) =~= out@ + unescape(s@.skip(i as int)));
        }
    }
    proof {
        assert(s@.skip(i as int) =~= Seq::<char>::empty());
        assert(out@ + Seq::<char>::empty() =~= out@);
    }
    out
}

} // verus!
