//! The wire encodings of text, lists, optional values and pairs.

use crate::errors::ConversionError;
use crate::wire::{
    be_bytes, get_uint, lemma_be_bytes_len, lemma_parse_uint_encoding, lemma_pow256_values,
    parse_uint, put_uint, read_agrees, Wire,
};
use vstd::prelude::*;
use vstd::slice::slice_subrange;
use vstd::utf8::{decode_utf8, encode_utf8, valid_utf8};

verus! {

/// `std::str::from_utf8`, with the text copied out: the text that `bytes`
/// spell where they are UTF-8, and nothing where they are not.
#[verifier::external_body]
fn text_from_utf8(bytes: &[u8]) -> (text: Option<String>)
    ensures
        text is Some <==> valid_utf8(bytes@),
        text matches Some(t) ==> t@ == decode_utf8(bytes@),
{
    match std::str::from_utf8(bytes) {
        Ok(text) => Some(text.to_string()),
        Err(_) => None,
    }
}

/// Appends `bytes` to `out`.
pub(crate) fn put_bytes(bytes: &[u8], out: &mut Vec<u8>)
    ensures
        final(out)@ == old(out)@ + bytes@,
{
    let ghost start = out@;
    let mut i: usize = 0;
    while i < bytes.len()
        invariant
            i <= bytes@.len(),
            out@ == start + bytes@.take(i as int),
        decreases bytes@.len() - i,
    {
        out.push(bytes[i]);
        assert(bytes@.take(i + 1) =~= bytes@.take(i as int).push(bytes@[i as int]));
        i = i + 1;
    }
    assert(bytes@.take(bytes@.len() as int) =~= bytes@);
}

/// Appends the encoding of `text` to `out`.
pub(crate) fn put_text(text: &str, out: &mut Vec<u8>)
    ensures
        final(out)@ == old(out)@ + String::encoding(text@),
        String::valid(text@),
{
    let body = text.as_bytes();
    put_uint(body.len() as u128, 8, out);
    put_bytes(body, out);
    assert(out@ =~= old(out)@ + String::encoding(text@));
}

/// Text on the wire: the length of its UTF-8 form in eight bytes, then that form.
impl Wire for String {
    open spec fn valid(m: Seq<char>) -> bool {
        encode_utf8(m).len() <= u64::MAX
    }

    open spec fn encoding(m: Seq<char>) -> Seq<u8> {
        be_bytes(encode_utf8(m).len(), 8) + encode_utf8(m)
    }

    open spec fn parse(s: Seq<u8>) -> Result<(Seq<char>, int), ConversionError> {
        match parse_uint(s, 8) {
            Err(e) => Err(e),
            Ok((len, n)) => if s.len() - n < len {
                Err(ConversionError::Truncated)
            } else if !valid_utf8(s.subrange(n, n + len)) {
                Err(ConversionError::InvalidUtf8)
            } else {
                Ok((decode_utf8(s.subrange(n, n + len)), n + len))
            },
        }
    }

    proof fn lemma_parse_encoding(m: Seq<char>, rest: Seq<u8>) {
        let body = encode_utf8(m);
        let s = Self::encoding(m) + rest;
        lemma_pow256_values();
        lemma_parse_uint_encoding(body.len(), 8, body + rest);
        assert(s =~= be_bytes(body.len(), 8) + (body + rest));
        assert(s.subrange(8, 8 + body.len() as int) =~= body);
        vstd::utf8::encode_utf8_valid_utf8(m);
        vstd::utf8::encode_utf8_decode_utf8(m);
    }

    fn write(&self, out: &mut Vec<u8>) {
        put_text(self.as_str(), out);
    }

    fn read(input: &[u8], pos: usize) -> (r: Result<(String, usize), ConversionError>) {
        let (len, start) = match get_uint(input, pos, 8) {
            Ok(found) => found,
            Err(e) => {
                return Err(e);
            },
        };
        let ghost s = input@.skip(pos as int);
        if ((input.len() - start) as u128) < len {
            return Err(ConversionError::Truncated);
        }
        let end: usize = start + len as usize;
        let body = slice_subrange(input, start, end);
        assert(body@ =~= s.subrange(8, 8 + len));
        match text_from_utf8(body) {
            Some(text) => Ok((text, end)),
            None => Err(ConversionError::InvalidUtf8),
        }
    }
}

/// `r`, with `head` put before the items it found and `taken` added to the
/// bytes it took.
pub open spec fn prepend<M>(
    head: Seq<M>,
    taken: int,
    r: Result<(Seq<M>, int), ConversionError>,
) -> Result<(Seq<M>, int), ConversionError> {
    match r {
        Ok((tail, n)) => Ok((head + tail, taken + n)),
        Err(e) => Err(e),
    }
}

/// The encodings of `items`, one after the other.
pub open spec fn encode_items<T: Wire>(items: Seq<T::V>) -> Seq<u8>
    decreases items.len(),
{
    if items.len() == 0 {
        Seq::empty()
    } else {
        T::encoding(items[0]) + encode_items::<T>(items.skip(1))
    }
}

/// `count` values off the front of `s`, one after the other.
pub open spec fn parse_items<T: Wire>(s: Seq<u8>, count: nat) -> Result<
    (Seq<T::V>, int),
    ConversionError,
>
    decreases count,
{
    if count == 0 {
        Ok((Seq::empty(), 0))
    } else {
        match T::parse(s) {
            Err(e) => Err(e),
            Ok((m, n)) => prepend(seq![m], n, parse_items::<T>(s.skip(n), (count - 1) as nat)),
        }
    }
}

/// Whether every one of `items` is a valid model.
pub open spec fn all_valid<T: Wire>(items: Seq<T::V>) -> bool {
    forall|i: int| 0 <= i < items.len() ==> T::valid(#[trigger] items[i])
}

/// The encoding of a list that grew by one item at its end grows by that
/// item's encoding.
pub proof fn lemma_encode_items_push<T: Wire>(items: Seq<T::V>, last: T::V)
    ensures
        encode_items::<T>(items.push(last)) == encode_items::<T>(items) + T::encoding(last),
    decreases items.len(),
{
    let grown = items.push(last);
    if items.len() == 0 {
        assert(grown.skip(1) =~= Seq::<T::V>::empty());
        assert(grown[0] == last);
        assert(encode_items::<T>(grown.skip(1)) =~= Seq::<u8>::empty());
        assert(encode_items::<T>(grown) =~= T::encoding(last) + Seq::<u8>::empty());
        assert(encode_items::<T>(grown) =~= encode_items::<T>(items) + T::encoding(last));
    } else {
        lemma_encode_items_push::<T>(items.skip(1), last);
        assert(grown.skip(1) =~= items.skip(1).push(last));
        assert(encode_items::<T>(grown) =~= encode_items::<T>(items) + T::encoding(last));
    }
}

/// Parsing as many items as were encoded gives the items back and takes
/// exactly their encodings.
pub proof fn lemma_parse_items_encoding<T: Wire>(items: Seq<T::V>, rest: Seq<u8>)
    requires
        all_valid::<T>(items),
    ensures
        parse_items::<T>(encode_items::<T>(items) + rest, items.len()) == Ok::<
            (Seq<T::V>, int),
            ConversionError,
        >((items, encode_items::<T>(items).len() as int)),
    decreases items.len(),
{
    if items.len() == 0 {
        assert(items =~= Seq::<T::V>::empty());
    } else {
        let first = T::encoding(items[0]);
        let tail = items.skip(1);
        let s = encode_items::<T>(items) + rest;
        assert(T::valid(items[0]));
        assert(all_valid::<T>(tail)) by {
            assert forall|i: int| 0 <= i < tail.len() implies T::valid(#[trigger] tail[i]) by {
                assert(tail[i] == items[i + 1]);
            }
        }
        T::lemma_parse_encoding(items[0], encode_items::<T>(tail) + rest);
        assert(s =~= first + (encode_items::<T>(tail) + rest));
        assert(s.skip(first.len() as int) =~= encode_items::<T>(tail) + rest);
        lemma_parse_items_encoding::<T>(tail, rest);
        assert(seq![items[0]] + tail =~= items);
    }
}

/// A list on the wire: the number of its items in eight bytes, then the items.
impl<T: Wire> Wire for Vec<T> {
    open spec fn valid(m: Seq<T::V>) -> bool {
        m.len() <= u64::MAX && all_valid::<T>(m)
    }

    open spec fn encoding(m: Seq<T::V>) -> Seq<u8> {
        be_bytes(m.len(), 8) + encode_items::<T>(m)
    }

    open spec fn parse(s: Seq<u8>) -> Result<(Seq<T::V>, int), ConversionError> {
        match parse_uint(s, 8) {
            Err(e) => Err(e),
            Ok((count, n)) => prepend(Seq::empty(), n, parse_items::<T>(s.skip(n), count)),
        }
    }

    proof fn lemma_parse_encoding(m: Seq<T::V>, rest: Seq<u8>) {
        let body = encode_items::<T>(m);
        let s = Self::encoding(m) + rest;
        lemma_pow256_values();
        lemma_parse_uint_encoding(m.len(), 8, body + rest);
        assert(s =~= be_bytes(m.len(), 8) + (body + rest));
        assert(s.skip(8) =~= body + rest);
        lemma_parse_items_encoding::<T>(m, rest);
        assert(Seq::<T::V>::empty() + m =~= m);
    }

    fn write(&self, out: &mut Vec<u8>) {
        let count = self.len();
        let ghost start = out@;
        let ghost models = self.deep_view();
        put_uint(count as u128, 8, out);
        let mut i: usize = 0;
        assert(models.take(0) =~= Seq::<T::V>::empty());
        while i < count
            invariant
                i <= count == self@.len(),
                models == self.deep_view(),
                out@ == start + be_bytes(count as nat, 8) + encode_items::<T>(
                    models.take(i as int),
                ),
                all_valid::<T>(models.take(i as int)),
            decreases count - i,
        {
            self[i].write(out);
            proof {
                let done = models.take(i as int);
                lemma_encode_items_push::<T>(done, models[i as int]);
                assert(models.take(i + 1) =~= done.push(models[i as int]));
                assert(all_valid::<T>(models.take(i + 1))) by {
                    assert forall|j: int| 0 <= j < i + 1 implies T::valid(
                        #[trigger] models.take(i + 1)[j],
                    ) by {
                        if j < i {
                            assert(models.take(i + 1)[j] == done[j]);
                        }
                    }
                }
                assert(out@ =~= start + be_bytes(count as nat, 8) + encode_items::<T>(
                    models.take(i + 1),
                ));
            }
            i = i + 1;
        }
        assert(models.take(count as int) =~= models);
    }

    fn read(input: &[u8], pos: usize) -> (r: Result<(Vec<T>, usize), ConversionError>) {
        let (count, start) = match get_uint(input, pos, 8) {
            Ok(found) => found,
            Err(e) => {
                return Err(e);
            },
        };
        let ghost body = input@.skip(start as int);
        assert(input@.skip(pos as int).skip(8) =~= body);
        let mut items: Vec<T> = Vec::new();
        let mut at: usize = start;
        let mut i: u128 = 0;
        assert(items.deep_view() =~= Seq::<T::V>::empty());
        assert(prepend(
            Seq::<T::V>::empty(),
            0,
            parse_items::<T>(body, count as nat),
        ) == parse_items::<T>(body, count as nat)) by {
            match parse_items::<T>(body, count as nat) {
                Ok((tail, n)) => {
                    assert(Seq::<T::V>::empty() + tail =~= tail);
                },
                Err(e) => {},
            }
        }
        while i < count
            invariant
                i <= count,
                pos + 8 == start <= at <= input@.len(),
                body == input@.skip(start as int),
                body == input@.skip(pos as int).skip(8),
                parse_uint(input@.skip(pos as int), 8) == Ok::<(nat, int), ConversionError>(
                    (count as nat, 8),
                ),
                parse_items::<T>(body, count as nat) == prepend(
                    items.deep_view(),
                    at - start,
                    parse_items::<T>(input@.skip(at as int), (count - i) as nat),
                ),
            decreases count - i,
        {
            let ghost before = items.deep_view();
            match T::read(input, at) {
                Err(e) => {
                    return Err(e);
                },
                Ok((item, end)) => {
                    let ghost m = item.deep_view();
                    let ghost n = end - at;
                    items.push(item);
                    proof {
                        let later = parse_items::<T>(
                            input@.skip(end as int),
                            (count - i - 1) as nat,
                        );
                        assert(input@.skip(at as int).skip(n) =~= input@.skip(end as int));
                        assert(items.deep_view() =~= before.push(m));
                        match later {
                            Ok((tail, k)) => {
                                assert(before + (seq![m] + tail) =~= before.push(m) + tail);
                            },
                            Err(e) => {},
                        }
                    }
                    at = end;
                    i = i + 1;
                },
            }
        }
        proof {
            assert(items.deep_view() + Seq::<T::V>::empty() =~= items.deep_view());
            assert(Seq::<T::V>::empty() + items.deep_view() =~= items.deep_view());
        }
        Ok((items, at))
    }
}

/// An optional value on the wire: tag 0 for none, tag 1 and the value for some.
impl<T: Wire> Wire for Option<T> {
    open spec fn valid(m: Option<T::V>) -> bool {
        match m {
            Some(inner) => T::valid(inner),
            None => true,
        }
    }

    open spec fn encoding(m: Option<T::V>) -> Seq<u8> {
        match m {
            Some(inner) => u8::encoding(1) + T::encoding(inner),
            None => u8::encoding(0),
        }
    }

    open spec fn parse(s: Seq<u8>) -> Result<(Option<T::V>, int), ConversionError> {
        match u8::parse(s) {
            Err(e) => Err(e),
            Ok((tag, n)) => if tag == 0 {
                Ok((None, n))
            } else if tag == 1 {
                match T::parse(s.skip(n)) {
                    Ok((inner, k)) => Ok((Some(inner), n + k)),
                    Err(e) => Err(e),
                }
            } else {
                Err(ConversionError::UnknownTag { tag })
            },
        }
    }

    proof fn lemma_parse_encoding(m: Option<T::V>, rest: Seq<u8>) {
        match m {
            Some(inner) => {
                let s = Self::encoding(m) + rest;
                u8::lemma_parse_encoding(1, T::encoding(inner) + rest);
                assert(s =~= u8::encoding(1) + (T::encoding(inner) + rest));
                assert(s.skip(u8::encoding(1).len() as int) =~= T::encoding(inner) + rest);
                T::lemma_parse_encoding(inner, rest);
            },
            None => {
                u8::lemma_parse_encoding(0, rest);
            },
        }
    }

    fn write(&self, out: &mut Vec<u8>) {
        match self {
            Some(inner) => {
                let tag: u8 = 1;
                tag.write(out);
                inner.write(out);
                assert(out@ =~= old(out)@ + Self::encoding(self.deep_view()));
            },
            None => {
                let tag: u8 = 0;
                tag.write(out);
            },
        }
    }

    fn read(input: &[u8], pos: usize) -> (r: Result<(Option<T>, usize), ConversionError>) {
        let (tag, start) = match u8::read(input, pos) {
            Ok(found) => found,
            Err(e) => {
                return Err(e);
            },
        };
        if tag == 0 {
            Ok((None, start))
        } else if tag == 1 {
            assert(input@.skip(pos as int).skip(start - pos) =~= input@.skip(start as int));
            match T::read(input, start) {
                Ok((inner, end)) => Ok((Some(inner), end)),
                Err(e) => Err(e),
            }
        } else {
            Err(ConversionError::UnknownTag { tag })
        }
    }
}

/// A pair on the wire: the first, then the second.
impl<A: Wire, B: Wire> Wire for (A, B) {
    open spec fn valid(m: (A::V, B::V)) -> bool {
        A::valid(m.0) && B::valid(m.1)
    }

    open spec fn encoding(m: (A::V, B::V)) -> Seq<u8> {
        A::encoding(m.0) + B::encoding(m.1)
    }

    open spec fn parse(s: Seq<u8>) -> Result<((A::V, B::V), int), ConversionError> {
        match A::parse(s) {
            Err(e) => Err(e),
            Ok((a, n)) => match B::parse(s.skip(n)) {
                Err(e) => Err(e),
                Ok((b, k)) => Ok(((a, b), n + k)),
            },
        }
    }

    proof fn lemma_parse_encoding(m: (A::V, B::V), rest: Seq<u8>) {
        let s = Self::encoding(m) + rest;
        A::lemma_parse_encoding(m.0, B::encoding(m.1) + rest);
        assert(s =~= A::encoding(m.0) + (B::encoding(m.1) + rest));
        assert(s.skip(A::encoding(m.0).len() as int) =~= B::encoding(m.1) + rest);
        B::lemma_parse_encoding(m.1, rest);
    }

    fn write(&self, out: &mut Vec<u8>) {
        self.0.write(out);
        self.1.write(out);
        assert(out@ =~= old(out)@ + Self::encoding(self.deep_view()));
    }

    fn read(input: &[u8], pos: usize) -> (r: Result<((A, B), usize), ConversionError>) {
        let (a, mid) = match A::read(input, pos) {
            Ok(found) => found,
            Err(e) => {
                return Err(e);
            },
        };
        assert(input@.skip(pos as int).skip(mid - pos) =~= input@.skip(mid as int));
        match B::read(input, mid) {
            Ok((b, end)) => Ok(((a, b), end)),
            Err(e) => Err(e),
        }
    }
}

/// The payload of a variant off `s`, behind the `n` bytes of its tag; the bytes
/// taken count the tag too.
pub open spec fn parse_variant<P: Wire>(s: Seq<u8>, n: int) -> Result<(P::V, int), ConversionError> {
    match P::parse(s.skip(n)) {
        Ok((m, k)) => Ok((m, n + k)),
        Err(e) => Err(e),
    }
}

/// Reads the payload of a variant at `start`, whose tag began at `pos`.
pub(crate) fn read_variant<P: Wire>(input: &[u8], pos: usize, start: usize) -> (r: Result<
    (P, usize),
    ConversionError,
>)
    requires
        pos <= start <= input@.len(),
    ensures
        read_agrees(
            r,
            parse_variant::<P>(input@.skip(pos as int), start - pos),
            pos,
            input@.len(),
        ),
{
    assert(input@.skip(pos as int).skip(start - pos) =~= input@.skip(start as int));
    P::read(input, start)
}

/// A tag and a payload, parsed one after the other, are the tag and the
/// payload that were encoded.
pub proof fn lemma_parse_variant<P: Wire>(tag: u8, m: P::V, rest: Seq<u8>)
    requires
        P::valid(m),
    ensures
        ({
            let s = u8::encoding(tag) + P::encoding(m) + rest;
            &&& u8::parse(s) == Ok::<(u8, int), ConversionError>((tag, 1))
            &&& parse_variant::<P>(s, 1) == Ok::<(P::V, int), ConversionError>(
                (m, (u8::encoding(tag) + P::encoding(m)).len() as int),
            )
        }),
{
    <(u8, P)>::lemma_parse_encoding((tag, m), rest);
    u8::lemma_parse_encoding(tag, P::encoding(m) + rest);
    assert(u8::encoding(tag) + P::encoding(m) + rest =~= u8::encoding(tag) + (P::encoding(m)
        + rest));
    lemma_be_bytes_len(tag as nat, 1);
}

} // verus!
