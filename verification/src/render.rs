//! Byte-level text emission for the table builder: decimal numbers, string
//! and byte-string literal escaping.  The emitted source is a byte sequence;
//! every piece has an exact specification.

use vstd::prelude::*;

verus! {

/// The ASCII code of the hexadecimal digit for `n` (lower case), for
/// `n < 16`.
pub open spec fn spec_hex_digit(n: u8) -> u8 {
    if n < 10 {
        (48 + n) as u8
    } else {
        (87 + n) as u8
    }
}

fn hex_digit(n: u8) -> (r: u8)
    requires
        n < 16,
    ensures
        r == spec_hex_digit(n),
{
    if n < 10 {
        48 + n
    } else {
        87 + n
    }
}

/// The decimal digits of `n`, as ASCII codes, most significant first.
pub open spec fn dec_digits(n: nat) -> Seq<u8>
    decreases n,
{
    if n < 10 {
        seq![(48 + n) as u8]
    } else {
        dec_digits(n / 10) + seq![(48 + n % 10) as u8]
    }
}

/// Append the decimal rendering of `n` to `out`.
pub fn push_decimal(out: &mut Vec<u8>, n: u64)
    ensures
        final(out)@ == old(out)@ + dec_digits(n as nat),
    decreases n,
{
    if n >= 10 {
        push_decimal(out, n / 10);
    }
    out.push(48 + (n % 10) as u8);
    proof {
        assert(out@ =~= old(out)@ + dec_digits(n as nat));
    }
}

/// How one byte of a string key is rendered inside a `"…"` literal: quote
/// and backslash are escaped, other printable ASCII and all bytes of
/// multi-byte characters stand as they are, control bytes become `\x`
/// escapes.
pub open spec fn text_escape(b: u8) -> Seq<u8> {
    if b == 34 || b == 92 {
        seq![92u8, b]
    } else if b < 32 || b == 127 {
        seq![92u8, 120u8, spec_hex_digit(b / 16), spec_hex_digit(b % 16)]
    } else {
        seq![b]
    }
}

/// How one byte of a compressed value is rendered inside a `b"…"` literal:
/// printable ASCII but quote and backslash stand as they are, everything
/// else becomes a `\x` escape.
pub open spec fn bin_escape(b: u8) -> Seq<u8> {
    if b == 34 || b == 92 {
        seq![92u8, b]
    } else if 32 <= b && b <= 126 {
        seq![b]
    } else {
        seq![92u8, 120u8, spec_hex_digit(b / 16), spec_hex_digit(b % 16)]
    }
}

/// The bytes of `s`, escaped one after the other for a `"…"` literal.
pub open spec fn text_escaped(s: Seq<u8>) -> Seq<u8>
    decreases s.len(),
{
    if s.len() == 0 {
        Seq::empty()
    } else {
        text_escaped(s.drop_last()) + text_escape(s.last())
    }
}

/// The bytes of `s`, escaped one after the other for a `b"…"` literal.
pub open spec fn bin_escaped(s: Seq<u8>) -> Seq<u8>
    decreases s.len(),
{
    if s.len() == 0 {
        Seq::empty()
    } else {
        bin_escaped(s.drop_last()) + bin_escape(s.last())
    }
}

/// Append one byte to `out`, escaped for a `"…"` literal.
fn push_text_escape(out: &mut Vec<u8>, b: u8)
    ensures
        final(out)@ == old(out)@ + text_escape(b),
{
    if b == 34 || b == 92 {
        out.push(92);
        out.push(b);
    } else if b < 32 || b == 127 {
        out.push(92);
        out.push(120);
        out.push(hex_digit(b / 16));
        out.push(hex_digit(b % 16));
    } else {
        out.push(b);
    }
    proof {
        assert(out@ =~= old(out)@ + text_escape(b));
    }
}

/// Append one byte to `out`, escaped for a `b"…"` literal.
fn push_bin_escape(out: &mut Vec<u8>, b: u8)
    ensures
        final(out)@ == old(out)@ + bin_escape(b),
{
    if b == 34 || b == 92 {
        out.push(92);
        out.push(b);
    } else if 32 <= b && b <= 126 {
        out.push(b);
    } else {
        out.push(92);
        out.push(120);
        out.push(hex_digit(b / 16));
        out.push(hex_digit(b % 16));
    }
    proof {
        assert(out@ =~= old(out)@ + bin_escape(b));
    }
}

/// Append `data` to `out`, escaped for a `"…"` literal.
pub fn push_text_escaped(out: &mut Vec<u8>, data: &[u8])
    ensures
        final(out)@ == old(out)@ + text_escaped(data@),
{
    let n = data.len();
    let mut i: usize = 0;
    while i < n
        invariant
            n == data@.len(),
            0 <= i <= n,
            out@ == old(out)@ + text_escaped(data@.take(i as int)),
        decreases n - i,
    {
        push_text_escape(out, data[i]);
        proof {
            assert(data@.take(i + 1).drop_last() =~= data@.take(i as int));
            assert(data@.take(i + 1).last() == data@[i as int]);
        }
        i += 1;
    }
    proof {
        assert(data@.take(n as int) =~= data@);
    }
}

/// Append `data` to `out`, escaped for a `b"…"` literal.
pub fn push_bin_escaped(out: &mut Vec<u8>, data: &[u8])
    ensures
        final(out)@ == old(out)@ + bin_escaped(data@),
{
    let n = data.len();
    let mut i: usize = 0;
    while i < n
        invariant
            n == data@.len(),
            0 <= i <= n,
            out@ == old(out)@ + bin_escaped(data@.take(i as int)),
        decreases n - i,
    {
        push_bin_escape(out, data[i]);
        proof {
            assert(data@.take(i + 1).drop_last() =~= data@.take(i as int));
            assert(data@.take(i + 1).last() == data@[i as int]);
        }
        i += 1;
    }
    proof {
        assert(data@.take(n as int) =~= data@);
    }
}

/// Append all of `data` to `out`.
pub fn push_bytes(out: &mut Vec<u8>, data: &[u8])
    ensures
        final(out)@ == old(out)@ + data@,
{
    let n = data.len();
    let mut i: usize = 0;
    while i < n
        invariant
            n == data@.len(),
            0 <= i <= n,
            out@ == old(out)@ + data@.take(i as int),
        decreases n - i,
    {
        out.push(data[i]);
        proof {
            assert(data@.take(i + 1) =~= data@.take(i as int).push(data@[i as int]));
        }
        i += 1;
    }
    proof {
        assert(data@.take(n as int) =~= data@);
    }
}

} // verus!
