//! Text: UTF-8 decoding and the building of ASCII messages.
use vstd::prelude::*;
use vstd::utf8::{decode_utf8, encode_utf8, encode_utf8_valid_utf8, partial_valid_utf8, partial_valid_utf8_extend_ascii_block, valid_utf8, valid_utf8_concat};

verus! {

/// Relies on `String::from_utf8`: it succeeds exactly when the bytes are
/// valid UTF-8, and then the string holds the characters they encode.
#[verifier::external_body]
pub(crate) fn string_from_utf8(bytes: Vec<u8>) -> (r: Option<String>)
    ensures
        r is Some == valid_utf8(bytes@),
        r matches Some(s) ==> s@ == decode_utf8(bytes@),
{
    String::from_utf8(bytes).ok()
}

/// The decimal digits of `n`, in ASCII.
pub open spec fn decimal(n: nat) -> Seq<u8>
    decreases n,
{
    if n < 10 {
        seq![(48 + n) as u8]
    } else {
        decimal(n / 10) + seq![(48 + n % 10) as u8]
    }
}

/// The upper-case hexadecimal digit of `d` (below 16), in ASCII.
pub open spec fn hex_digit(d: nat) -> u8 {
    if d < 10 {
        (48 + d) as u8
    } else {
        (55 + d) as u8
    }
}

/// The last `width` upper-case hexadecimal digits of `n`, in ASCII.
pub open spec fn hex(n: nat, width: nat) -> Seq<u8>
    decreases width,
{
    if width == 0 {
        Seq::empty()
    } else {
        hex(n / 16, (width - 1) as nat) + seq![hex_digit(n % 16)]
    }
}

proof fn lemma_ascii_valid(b: u8)
    requires
        b < 0x80,
    ensures
        valid_utf8(seq![b]),
{
    let s = seq![b];
    assert(s.subrange(0, 0) =~= Seq::<u8>::empty());
    assert(valid_utf8(Seq::<u8>::empty()));
    assert(partial_valid_utf8(s, 0));
    partial_valid_utf8_extend_ascii_block(s, 0, 1);
    assert(s.subrange(0, 1) =~= s);
}

/// Append an ASCII byte.
pub(crate) fn push_ascii(buf: &mut Vec<u8>, b: u8)
    requires
        b < 0x80,
        valid_utf8(old(buf)@),
    ensures
        final(buf)@ == old(buf)@ + seq![b],
        valid_utf8(final(buf)@),
{
    proof {
        lemma_ascii_valid(b);
        valid_utf8_concat(old(buf)@, seq![b]);
    }
    buf.push(b);
    assert(final(buf)@ =~= old(buf)@ + seq![b]);
}

/// Append the UTF-8 bytes of `s`.
pub(crate) fn push_str(buf: &mut Vec<u8>, s: &str)
    requires
        valid_utf8(old(buf)@),
    ensures
        final(buf)@ == old(buf)@ + encode_utf8(s@),
        valid_utf8(final(buf)@),
{
    proof {
        encode_utf8_valid_utf8(s@);
        valid_utf8_concat(old(buf)@, encode_utf8(s@));
    }
    buf.extend_from_slice(s.as_bytes());
    assert(final(buf)@ =~= old(buf)@ + encode_utf8(s@));
}

/// Append the decimal digits of `n`.
pub(crate) fn push_decimal(buf: &mut Vec<u8>, n: u64)
    requires
        valid_utf8(old(buf)@),
    ensures
        final(buf)@ == old(buf)@ + decimal(n as nat),
        valid_utf8(final(buf)@),
    decreases n,
{
    if n >= 10 {
        push_decimal(buf, n / 10);
        push_ascii(buf, (48 + n % 10) as u8);
        assert(final(buf)@ =~= old(buf)@ + decimal(n as nat));
    } else {
        push_ascii(buf, (48 + n) as u8);
    }
}

/// Append the last `width` upper-case hexadecimal digits of `n`.
pub(crate) fn push_hex(buf: &mut Vec<u8>, n: u64, width: u32)
    requires
        valid_utf8(old(buf)@),
    ensures
        final(buf)@ == old(buf)@ + hex(n as nat, width as nat),
        valid_utf8(final(buf)@),
    decreases width,
{
    if width > 0 {
        push_hex(buf, n / 16, width - 1);
        let d = n % 16;
        let c: u8 = if d < 10 { (48 + d) as u8 } else { (55 + d) as u8 };
        push_ascii(buf, c);
        assert(final(buf)@ =~= old(buf)@ + hex(n as nat, width as nat));
    } else {
        assert(final(buf)@ =~= old(buf)@ + hex(n as nat, width as nat));
    }
}

/// The string whose UTF-8 bytes `bytes` are.
pub(crate) fn into_string(bytes: Vec<u8>) -> (r: String)
    requires
        valid_utf8(bytes@),
    ensures
        r@ == decode_utf8(bytes@),
{
    match string_from_utf8(bytes) {
        Some(s) => s,
        None => String::new(),
    }
}

} // verus!
