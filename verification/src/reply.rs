//! The envelope of an answer: either the value asked for or the failure status
//! that the remote side chose.

use crate::composites::{lemma_parse_variant, parse_variant, read_variant};
use crate::errors::{ClientError, ClientErrorView, ConversionError, Status};
use crate::wire::{lemma_round_trip, unmarshal, unmarshal_spec, Wire};
use vstd::prelude::*;

verus! {

/// What a `Status` holds.
pub struct StatusView {
    pub code: u32,
    pub message: Seq<char>,
}

impl DeepView for Status {
    type V = StatusView;

    open spec fn deep_view(&self) -> StatusView {
        StatusView { code: self.code, message: self.message@ }
    }
}

impl Wire for Status {
    open spec fn valid(m: StatusView) -> bool {
        <(u32, String)>::valid((m.code, m.message))
    }

    open spec fn encoding(m: StatusView) -> Seq<u8> {
        <(u32, String)>::encoding((m.code, m.message))
    }

    open spec fn parse(s: Seq<u8>) -> Result<(StatusView, int), ConversionError> {
        match <(u32, String)>::parse(s) {
            Ok(((code, message), n)) => Ok((StatusView { code, message }, n)),
            Err(e) => Err(e),
        }
    }

    proof fn lemma_parse_encoding(m: StatusView, rest: Seq<u8>) {
        <(u32, String)>::lemma_parse_encoding((m.code, m.message), rest);
    }

    fn write(&self, out: &mut Vec<u8>) {
        self.code.write(out);
        self.message.write(out);
        assert(out@ =~= old(out)@ + Self::encoding(self.deep_view()));
    }

    fn read(input: &[u8], pos: usize) -> (r: Result<(Status, usize), ConversionError>) {
        match <(u32, String)>::read(input, pos) {
            Ok(((code, message), end)) => Ok((Status { code, message }, end)),
            Err(e) => Err(e),
        }
    }
}

/// Nothing on the wire: the answer to an operation that returns no value.
impl Wire for () {
    open spec fn valid(m: ()) -> bool {
        true
    }

    open spec fn encoding(m: ()) -> Seq<u8> {
        Seq::empty()
    }

    open spec fn parse(s: Seq<u8>) -> Result<((), int), ConversionError> {
        Ok(((), 0))
    }

    proof fn lemma_parse_encoding(m: (), rest: Seq<u8>) {
    }

    fn write(&self, out: &mut Vec<u8>) {
        assert(out@ =~= old(out)@ + Seq::<u8>::empty());
    }

    fn read(input: &[u8], pos: usize) -> (r: Result<((), usize), ConversionError>) {
        Ok(((), pos))
    }
}

/// An answer in its envelope.
#[derive(Clone, Debug, PartialEq, Eq)]
pub enum Reply<T> {
    /// The operation was carried out; this is what it returned.
    Success(T),
    /// The remote side refused or failed; this is the status it chose.
    Failure(Status),
}

/// What a `Reply` holds.
pub enum ReplyView<M> {
    Success(M),
    Failure(StatusView),
}

impl<T: DeepView> DeepView for Reply<T> {
    type V = ReplyView<T::V>;

    open spec fn deep_view(&self) -> ReplyView<T::V> {
        match self {
            Reply::Success(value) => ReplyView::Success(value.deep_view()),
            Reply::Failure(status) => ReplyView::Failure(status.deep_view()),
        }
    }
}

impl<T: Wire> Wire for Reply<T> {
    open spec fn valid(m: ReplyView<T::V>) -> bool {
        match m {
            ReplyView::Success(value) => T::valid(value),
            ReplyView::Failure(status) => Status::valid(status),
        }
    }

    open spec fn encoding(m: ReplyView<T::V>) -> Seq<u8> {
        match m {
            ReplyView::Success(value) => u8::encoding(0) + T::encoding(value),
            ReplyView::Failure(status) => u8::encoding(1) + Status::encoding(status),
        }
    }

    open spec fn parse(s: Seq<u8>) -> Result<(ReplyView<T::V>, int), ConversionError> {
        match u8::parse(s) {
            Err(e) => Err(e),
            Ok((tag, n)) => if tag == 0 {
                match parse_variant::<T>(s, n) {
                    Ok((value, k)) => Ok((ReplyView::Success(value), k)),
                    Err(e) => Err(e),
                }
            } else if tag == 1 {
                match parse_variant::<Status>(s, n) {
                    Ok((status, k)) => Ok((ReplyView::Failure(status), k)),
                    Err(e) => Err(e),
                }
            } else {
                Err(ConversionError::UnknownTag { tag })
            },
        }
    }

    proof fn lemma_parse_encoding(m: ReplyView<T::V>, rest: Seq<u8>) {
        match m {
            ReplyView::Success(value) => lemma_parse_variant::<T>(0, value, rest),
            ReplyView::Failure(status) => lemma_parse_variant::<Status>(1, status, rest),
        }
    }

    fn write(&self, out: &mut Vec<u8>) {
        match self {
            Reply::Success(value) => {
                let tag: u8 = 0;
                tag.write(out);
                value.write(out);
            },
            Reply::Failure(status) => {
                let tag: u8 = 1;
                tag.write(out);
                status.write(out);
            },
        }
        assert(out@ =~= old(out)@ + Self::encoding(self.deep_view()));
    }

    fn read(input: &[u8], pos: usize) -> (r: Result<(Reply<T>, usize), ConversionError>) {
        let (tag, start) = match u8::read(input, pos) {
            Ok(found) => found,
            Err(e) => {
                return Err(e);
            },
        };
        if tag == 0 {
            match read_variant::<T>(input, pos, start) {
                Ok((value, end)) => Ok((Reply::Success(value), end)),
                Err(e) => Err(e),
            }
        } else if tag == 1 {
            match read_variant::<Status>(input, pos, start) {
                Ok((status, end)) => Ok((Reply::Failure(status), end)),
                Err(e) => Err(e),
            }
        } else {
            Err(ConversionError::UnknownTag { tag })
        }
    }
}

/// What an operation returns for the answer `s`: the value of a success, the
/// status of a failure as a protocol error, and a conversion error where `s` is
/// no answer at all.
pub open spec fn answer_spec<T: Wire>(s: Seq<u8>) -> Result<T::V, ClientErrorView> {
    match unmarshal_spec::<Reply<T>>(s) {
        Ok(ReplyView::Success(value)) => Ok(value),
        Ok(ReplyView::Failure(status)) => Err(
            ClientErrorView::Grpc { code: status.code, message: status.message },
        ),
        Err(e) => Err(ClientErrorView::Conversion { inner: e }),
    }
}

/// Whether the result `r` of an operation is the one that `expected` describes.
pub open spec fn result_matches<T: DeepView>(
    r: Result<T, ClientError>,
    expected: Result<T::V, ClientErrorView>,
) -> bool {
    match (r, expected) {
        (Ok(value), Ok(m)) => value.deep_view() == m,
        (Err(e), Err(f)) => e@ == f,
        _ => false,
    }
}

/// Opens the envelope of an answer.
pub fn answer<T: Wire>(reply: &[u8]) -> (r: Result<T, ClientError>)
    ensures
        result_matches(r, answer_spec::<T>(reply@)),
{
    match unmarshal::<Reply<T>>(reply) {
        Ok(Reply::Success(value)) => Ok(value),
        Ok(Reply::Failure(status)) => Err(ClientError::Grpc { inner: status }),
        Err(e) => Err(ClientError::Conversion { inner: e }),
    }
}

/// The answer that carries a valid value is opened to that value, and the
/// answer that carries a status to that status.
pub proof fn lemma_answer_round_trip<T: Wire>(m: ReplyView<T::V>)
    requires
        Reply::<T>::valid(m),
    ensures
        answer_spec::<T>(Reply::<T>::encoding(m)) == match m {
            ReplyView::Success(value) => Ok::<T::V, ClientErrorView>(value),
            ReplyView::Failure(status) => Err::<T::V, ClientErrorView>(
                ClientErrorView::Grpc { code: status.code, message: status.message },
            ),
        },
{
    lemma_round_trip::<Reply<T>>(m);
}

} // verus!
