//! The wire codec: how a value becomes bytes and how bytes become a value.
//!
//! Every type that crosses the wire implements [`Wire`]. The encoding of a value
//! is a function of its model alone; parsing reads one value off the front of a
//! byte sequence and says how many bytes it took, so that encodings compose by
//! concatenation. Integers are big-endian, lengths and counts are eight bytes
//! wide, and a tagged union starts with one tag byte.

use crate::errors::ConversionError;
use vstd::prelude::*;

verus! {

/// The number of values that `width` bytes can hold.
pub open spec fn pow256(width: nat) -> nat
    decreases width,
{
    if width == 0 {
        1
    } else {
        256 * pow256((width - 1) as nat)
    }
}

/// The number that the bytes `s` spell, most significant byte first.
pub open spec fn be_value(s: Seq<u8>) -> nat
    decreases s.len(),
{
    if s.len() == 0 {
        0
    } else {
        be_value(s.drop_last()) * 256 + s.last() as nat
    }
}

/// The `width` low bytes of `v`, most significant byte first.
pub open spec fn be_bytes(v: nat, width: nat) -> Seq<u8>
    decreases width,
{
    if width == 0 {
        Seq::empty()
    } else {
        be_bytes(v / 256, (width - 1) as nat).push((v % 256) as u8)
    }
}

pub proof fn lemma_pow256_values()
    ensures
        pow256(1) == 0x100,
        pow256(4) == 0x1_0000_0000,
        pow256(8) == 0x1_0000_0000_0000_0000,
        pow256(16) == 0x1_0000_0000_0000_0000_0000_0000_0000_0000,
{
    reveal_with_fuel(pow256, 17);
}

pub proof fn lemma_be_bytes_len(v: nat, width: nat)
    ensures
        be_bytes(v, width).len() == width,
    decreases width,
{
    if width > 0 {
        lemma_be_bytes_len(v / 256, (width - 1) as nat);
    }
}

/// A byte sequence spells a number below the count of values of its length.
pub proof fn lemma_be_value_bound(s: Seq<u8>)
    ensures
        be_value(s) < pow256(s.len()),
    decreases s.len(),
{
    if s.len() > 0 {
        lemma_be_value_bound(s.drop_last());
    }
}

/// Spelling a number that fits and reading the bytes back gives the number.
pub proof fn lemma_be_value_of_bytes(v: nat, width: nat)
    requires
        v < pow256(width),
    ensures
        be_value(be_bytes(v, width)) == v,
    decreases width,
{
    if width > 0 {
        let head = be_bytes(v / 256, (width - 1) as nat);
        lemma_be_value_of_bytes(v / 256, (width - 1) as nat);
        assert(be_bytes(v, width).drop_last() =~= head);
    }
}

/// One unsigned integer of `width` bytes off the front of `s`.
pub open spec fn parse_uint(s: Seq<u8>, width: nat) -> Result<(nat, int), ConversionError> {
    if s.len() < width {
        Err(ConversionError::Truncated)
    } else {
        Ok((be_value(s.subrange(0, width as int)), width as int))
    }
}

pub proof fn lemma_parse_uint_encoding(v: nat, width: nat, rest: Seq<u8>)
    requires
        v < pow256(width),
    ensures
        parse_uint(be_bytes(v, width) + rest, width) == Ok::<(nat, int), ConversionError>(
            (v, width as int),
        ),
        be_bytes(v, width).len() == width,
{
    lemma_be_bytes_len(v, width);
    lemma_be_value_of_bytes(v, width);
    assert((be_bytes(v, width) + rest).subrange(0, width as int) =~= be_bytes(v, width));
}

/// What it means for an executable read at `pos` of an input of `len` bytes to
/// agree with the parse of the bytes from `pos` on: the same value, the end
/// position after the bytes taken, and the same error.
pub open spec fn read_agrees<T: DeepView>(
    r: Result<(T, usize), ConversionError>,
    parsed: Result<(T::V, int), ConversionError>,
    pos: usize,
    len: nat,
) -> bool {
    match (r, parsed) {
        (Ok((value, end)), Ok((m, n))) => value.deep_view() == m && end == pos + n && pos <= end
            <= len,
        (Err(e), Err(f)) => e == f,
        _ => false,
    }
}

/// A type with a wire encoding.
pub trait Wire: Sized + DeepView {
    /// Whether `m` is the model of a value of this type.
    spec fn valid(m: Self::V) -> bool;

    /// The bytes that carry `m`.
    spec fn encoding(m: Self::V) -> Seq<u8>;

    /// One value off the front of `s`, with the number of bytes it took.
    spec fn parse(s: Seq<u8>) -> Result<(Self::V, int), ConversionError>;

    /// Parsing the encoding of a valid model gives the model back and takes
    /// exactly the encoding, whatever follows it.
    proof fn lemma_parse_encoding(m: Self::V, rest: Seq<u8>)
        requires
            Self::valid(m),
        ensures
            Self::parse(Self::encoding(m) + rest) == Ok::<(Self::V, int), ConversionError>(
                (m, Self::encoding(m).len() as int),
            ),
    ;

    /// Appends the encoding of `self` to `out`.
    fn write(&self, out: &mut Vec<u8>)
        ensures
            final(out)@ == old(out)@ + Self::encoding(self.deep_view()),
            Self::valid(self.deep_view()),
    ;

    /// Reads one value from `input` at `pos`.
    fn read(input: &[u8], pos: usize) -> (r: Result<(Self, usize), ConversionError>)
        requires
            pos <= input@.len(),
        ensures
            read_agrees(r, Self::parse(input@.skip(pos as int)), pos, input@.len()),
    ;
}

/// The value that the whole of `s` carries: one value and nothing after it.
pub open spec fn unmarshal_spec<T: Wire>(s: Seq<u8>) -> Result<T::V, ConversionError> {
    match T::parse(s) {
        Ok((m, n)) => if n == s.len() {
            Ok(m)
        } else {
            Err(ConversionError::TrailingBytes)
        },
        Err(e) => Err(e),
    }
}

/// Marshals `value` into a fresh buffer.
pub fn marshal<T: Wire>(value: &T) -> (bytes: Vec<u8>)
    ensures
        bytes@ == T::encoding(value.deep_view()),
        T::valid(value.deep_view()),
{
    let mut out: Vec<u8> = Vec::new();
    value.write(&mut out);
    assert(out@ =~= T::encoding(value.deep_view()));
    out
}

/// Unmarshals the whole of `bytes` into one value. Fails with the error of the
/// parse, or with `TrailingBytes` if the value ends before the input does.
pub fn unmarshal<T: Wire>(bytes: &[u8]) -> (r: Result<T, ConversionError>)
    ensures
        match r {
            Ok(value) => unmarshal_spec::<T>(bytes@) == Ok::<T::V, ConversionError>(
                value.deep_view(),
            ),
            Err(e) => unmarshal_spec::<T>(bytes@) == Err::<T::V, ConversionError>(e),
        },
{
    assert(bytes@.skip(0) =~= bytes@);
    match T::read(bytes, 0) {
        Ok((value, end)) => {
            if end == bytes.len() {
                Ok(value)
            } else {
                Err(ConversionError::TrailingBytes)
            }
        },
        Err(e) => Err(e),
    }
}

/// Marshalling a valid value and unmarshalling the bytes reproduces the value.
pub proof fn lemma_round_trip<T: Wire>(m: T::V)
    requires
        T::valid(m),
    ensures
        unmarshal_spec::<T>(T::encoding(m)) == Ok::<T::V, ConversionError>(m),
{
    T::lemma_parse_encoding(m, Seq::empty());
    assert(T::encoding(m) + Seq::<u8>::empty() =~= T::encoding(m));
}

/// Appends the `width` low bytes of `value` to `out`, most significant first.
pub(crate) fn put_uint(value: u128, width: usize, out: &mut Vec<u8>)
    requires
        width <= 16,
    ensures
        final(out)@ == old(out)@ + be_bytes(value as nat, width as nat),
    decreases width,
{
    if width == 0 {
        assert(out@ =~= old(out)@ + be_bytes(value as nat, 0));
    } else {
        put_uint(value / 256, width - 1, out);
        out.push((value % 256) as u8);
        assert(out@ =~= old(out)@ + be_bytes(value as nat, width as nat));
    }
}

/// Reads an unsigned integer of `width` bytes from `input` at `pos`.
pub(crate) fn get_uint(input: &[u8], pos: usize, width: usize) -> (r: Result<(u128, usize), ConversionError>)
    requires
        pos <= input@.len(),
        width <= 16,
    ensures
        match r {
            Ok((v, end)) => parse_uint(input@.skip(pos as int), width as nat) == Ok::<
                (nat, int),
                ConversionError,
            >((v as nat, width as int)) && end == pos + width && end <= input@.len(),
            Err(e) => parse_uint(input@.skip(pos as int), width as nat) == Err::<
                (nat, int),
                ConversionError,
            >(e),
        },
{
    if input.len() - pos < width {
        return Err(ConversionError::Truncated);
    }
    let ghost field = input@.skip(pos as int).subrange(0, width as int);
    let mut acc: u128 = 0;
    let mut i: usize = 0;
    while i < width
        invariant
            i <= width <= 16,
            pos + width <= input@.len() <= usize::MAX,
            field == input@.skip(pos as int).subrange(0, width as int),
            acc as nat == be_value(field.subrange(0, i as int)),
        decreases width - i,
    {
        let byte: u8 = input[pos + i];
        proof {
            let before = field.subrange(0, i as int);
            let after = field.subrange(0, i + 1);
            lemma_be_value_bound(before);
            lemma_pow256_bound(i as nat);
            assert(after.drop_last() =~= before);
            assert(after.last() == byte);
        }
        acc = acc * 256 + byte as u128;
        i = i + 1;
    }
    assert(field.subrange(0, width as int) =~= field);
    Ok((acc, pos + width))
}

/// Fewer than sixteen bytes hold a number that can grow by one more byte
/// inside 128 bits.
proof fn lemma_pow256_bound(width: nat)
    requires
        width < 16,
    ensures
        pow256(width) * 256 <= 0x1_0000_0000_0000_0000_0000_0000_0000_0000,
{
    reveal_with_fuel(pow256, 17);
}

} // verus!
