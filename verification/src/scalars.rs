//! The wire encodings of integers and booleans.

use crate::errors::ConversionError;
use crate::wire::{
    be_bytes, get_uint, lemma_be_value_bound, lemma_parse_uint_encoding, lemma_pow256_values,
    parse_uint, put_uint, Wire,
};
use vstd::prelude::*;

verus! {

impl Wire for u8 {
    open spec fn valid(m: u8) -> bool {
        true
    }

    open spec fn encoding(m: u8) -> Seq<u8> {
        be_bytes(m as nat, 1)
    }

    open spec fn parse(s: Seq<u8>) -> Result<(u8, int), ConversionError> {
        match parse_uint(s, 1) {
            Ok((v, n)) => Ok((v as u8, n)),
            Err(e) => Err(e),
        }
    }

    proof fn lemma_parse_encoding(m: u8, rest: Seq<u8>) {
        lemma_pow256_values();
        lemma_parse_uint_encoding(m as nat, 1, rest);
    }

    fn write(&self, out: &mut Vec<u8>) {
        put_uint(*self as u128, 1, out);
    }

    fn read(input: &[u8], pos: usize) -> (r: Result<(u8, usize), ConversionError>) {
        match get_uint(input, pos, 1) {
            Ok((v, end)) => {
                proof {
                    lemma_pow256_values();
                    lemma_be_value_bound(input@.skip(pos as int).subrange(0, 1));
                }
                Ok((v as u8, end))
            },
            Err(e) => Err(e),
        }
    }
}

impl Wire for u32 {
    open spec fn valid(m: u32) -> bool {
        true
    }

    open spec fn encoding(m: u32) -> Seq<u8> {
        be_bytes(m as nat, 4)
    }

    open spec fn parse(s: Seq<u8>) -> Result<(u32, int), ConversionError> {
        match parse_uint(s, 4) {
            Ok((v, n)) => Ok((v as u32, n)),
            Err(e) => Err(e),
        }
    }

    proof fn lemma_parse_encoding(m: u32, rest: Seq<u8>) {
        lemma_pow256_values();
        lemma_parse_uint_encoding(m as nat, 4, rest);
    }

    fn write(&self, out: &mut Vec<u8>) {
        put_uint(*self as u128, 4, out);
    }

    fn read(input: &[u8], pos: usize) -> (r: Result<(u32, usize), ConversionError>) {
        match get_uint(input, pos, 4) {
            Ok((v, end)) => {
                proof {
                    lemma_pow256_values();
                    lemma_be_value_bound(input@.skip(pos as int).subrange(0, 4));
                }
                Ok((v as u32, end))
            },
            Err(e) => Err(e),
        }
    }
}

impl Wire for u64 {
    open spec fn valid(m: u64) -> bool {
        true
    }

    open spec fn encoding(m: u64) -> Seq<u8> {
        be_bytes(m as nat, 8)
    }

    open spec fn parse(s: Seq<u8>) -> Result<(u64, int), ConversionError> {
        match parse_uint(s, 8) {
            Ok((v, n)) => Ok((v as u64, n)),
            Err(e) => Err(e),
        }
    }

    proof fn lemma_parse_encoding(m: u64, rest: Seq<u8>) {
        lemma_pow256_values();
        lemma_parse_uint_encoding(m as nat, 8, rest);
    }

    fn write(&self, out: &mut Vec<u8>) {
        put_uint(*self as u128, 8, out);
    }

    fn read(input: &[u8], pos: usize) -> (r: Result<(u64, usize), ConversionError>) {
        match get_uint(input, pos, 8) {
            Ok((v, end)) => {
                proof {
                    lemma_pow256_values();
                    lemma_be_value_bound(input@.skip(pos as int).subrange(0, 8));
                }
                Ok((v as u64, end))
            },
            Err(e) => Err(e),
        }
    }
}

/// The unsigned number that carries `v` in two's complement.
pub open spec fn twos_complement(v: i64) -> u64 {
    if v >= 0 {
        v as u64
    } else {
        (v + 0x1_0000_0000_0000_0000) as u64
    }
}

/// The signed number that `u` carries in two's complement.
pub open spec fn from_twos_complement(u: u64) -> i64 {
    if u < 0x8000_0000_0000_0000 {
        u as i64
    } else {
        (u - 0x1_0000_0000_0000_0000) as i64
    }
}

fn to_bits(v: i64) -> (u: u64)
    ensures
        u == twos_complement(v),
{
    if v >= 0 {
        v as u64
    } else {
        ((v + i64::MAX) + 1) as u64 + 0x8000_0000_0000_0000
    }
}

fn from_bits(u: u64) -> (v: i64)
    ensures
        v == from_twos_complement(u),
{
    if u < 0x8000_0000_0000_0000 {
        u as i64
    } else {
        ((u - 0x8000_0000_0000_0000) as i64 - i64::MAX) - 1
    }
}

impl Wire for i64 {
    open spec fn valid(m: i64) -> bool {
        true
    }

    open spec fn encoding(m: i64) -> Seq<u8> {
        u64::encoding(twos_complement(m))
    }

    open spec fn parse(s: Seq<u8>) -> Result<(i64, int), ConversionError> {
        match u64::parse(s) {
            Ok((u, n)) => Ok((from_twos_complement(u), n)),
            Err(e) => Err(e),
        }
    }

    proof fn lemma_parse_encoding(m: i64, rest: Seq<u8>) {
        u64::lemma_parse_encoding(twos_complement(m), rest);
    }

    fn write(&self, out: &mut Vec<u8>) {
        to_bits(*self).write(out);
    }

    fn read(input: &[u8], pos: usize) -> (r: Result<(i64, usize), ConversionError>) {
        match u64::read(input, pos) {
            Ok((u, end)) => Ok((from_bits(u), end)),
            Err(e) => Err(e),
        }
    }
}

impl Wire for bool {
    open spec fn valid(m: bool) -> bool {
        true
    }

    open spec fn encoding(m: bool) -> Seq<u8> {
        u8::encoding(
            if m {
                1u8
            } else {
                0u8
            },
        )
    }

    open spec fn parse(s: Seq<u8>) -> Result<(bool, int), ConversionError> {
        match u8::parse(s) {
            Ok((tag, n)) => if tag == 0 {
                Ok((false, n))
            } else if tag == 1 {
                Ok((true, n))
            } else {
                Err(ConversionError::UnknownTag { tag })
            },
            Err(e) => Err(e),
        }
    }

    proof fn lemma_parse_encoding(m: bool, rest: Seq<u8>) {
        u8::lemma_parse_encoding(
            if m {
                1u8
            } else {
                0u8
            },
            rest,
        );
    }

    fn write(&self, out: &mut Vec<u8>) {
        let tag: u8 = if *self {
            1
        } else {
            0
        };
        tag.write(out);
    }

    fn read(input: &[u8], pos: usize) -> (r: Result<(bool, usize), ConversionError>) {
        match u8::read(input, pos) {
            Ok((tag, end)) => {
                if tag == 0 {
                    Ok((false, end))
                } else if tag == 1 {
                    Ok((true, end))
                } else {
                    Err(ConversionError::UnknownTag { tag })
                }
            },
            Err(e) => Err(e),
        }
    }
}

} // verus!
