//! The graph value model: identifiers, type labels, vertices, edges and
//! property values, each with its wire encoding.

use crate::composites::put_bytes;
use crate::errors::ConversionError;
use crate::wire::{
    be_bytes, be_value, lemma_parse_uint_encoding, lemma_pow256_values, parse_uint, Wire,
};
use vstd::prelude::*;
use vstd::slice::slice_subrange;

verus! {

/// `uuid::Uuid::from_slice`, then `Uuid::as_u128`: the number that sixteen
/// bytes spell, most significant byte first, and nothing for any other length.
#[verifier::external_body]
fn uuid_from_slice(bytes: &[u8]) -> (value: Option<u128>)
    ensures
        value is Some <==> bytes@.len() == 16,
        value matches Some(v) ==> v as nat == be_value(bytes@),
{
    match uuid::Uuid::from_slice(bytes) {
        Ok(id) => Some(id.as_u128()),
        Err(_) => None,
    }
}

/// `uuid::Uuid::from_u128`, then `Uuid::into_bytes`: the sixteen bytes of
/// `value`, most significant byte first.
#[verifier::external_body]
fn uuid_bytes(value: u128) -> (bytes: [u8; 16])
    ensures
        bytes@ == be_bytes(value as nat, 16),
{
    uuid::Uuid::from_u128(value).into_bytes()
}

/// The 128-bit name of a vertex. Identifiers are ordered as numbers, which is
/// the order of their sixteen bytes read most significant first.
#[derive(Clone, Copy, Debug, PartialEq, Eq, PartialOrd, Ord, Hash, Structural)]
pub struct Identifier {
    value: u128,
}

impl DeepView for Identifier {
    type V = u128;

    closed spec fn deep_view(&self) -> u128 {
        self.value
    }
}

impl Identifier {
    /// The identifier with the number `value`.
    pub fn from_u128(value: u128) -> (id: Identifier)
        ensures
            id.deep_view() == value,
    {
        Identifier { value }
    }

    /// The number of this identifier.
    pub fn as_u128(&self) -> (value: u128)
        ensures
            value == self.deep_view(),
    {
        self.value
    }

    /// The identifier that `bytes` spell. Fails unless there are exactly
    /// sixteen of them.
    pub fn from_slice(bytes: &[u8]) -> (r: Result<Identifier, ConversionError>)
        ensures
            bytes@.len() == 16 ==> (r matches Ok(id) && id.deep_view() as nat == be_value(
                bytes@,
            )),
            bytes@.len() != 16 ==> r == Err::<Identifier, ConversionError>(
                ConversionError::InvalidIdentifierLength { len: bytes@.len() as usize },
            ),
    {
        match uuid_from_slice(bytes) {
            Some(value) => Ok(Identifier { value }),
            None => Err(ConversionError::InvalidIdentifierLength { len: bytes.len() }),
        }
    }

    /// The sixteen bytes of this identifier.
    pub fn to_bytes(&self) -> (bytes: [u8; 16])
        ensures
            bytes@ == be_bytes(self.deep_view() as nat, 16),
    {
        uuid_bytes(self.value)
    }

    /// Whether this identifier comes strictly before `other`.
    pub fn precedes(&self, other: &Identifier) -> (b: bool)
        ensures
            b == (self.deep_view() < other.deep_view()),
    {
        self.value < other.value
    }
}

/// An identifier on the wire: its sixteen bytes.
impl Wire for Identifier {
    open spec fn valid(m: u128) -> bool {
        true
    }

    open spec fn encoding(m: u128) -> Seq<u8> {
        be_bytes(m as nat, 16)
    }

    open spec fn parse(s: Seq<u8>) -> Result<(u128, int), ConversionError> {
        match parse_uint(s, 16) {
            Ok((v, n)) => Ok((v as u128, n)),
            Err(e) => Err(e),
        }
    }

    proof fn lemma_parse_encoding(m: u128, rest: Seq<u8>) {
        lemma_pow256_values();
        lemma_parse_uint_encoding(m as nat, 16, rest);
    }

    fn write(&self, out: &mut Vec<u8>) {
        let bytes = uuid_bytes(self.value);
        put_bytes(bytes.as_slice(), out);
    }

    fn read(input: &[u8], pos: usize) -> (r: Result<(Identifier, usize), ConversionError>) {
        if input.len() - pos < 16 {
            return Err(ConversionError::Truncated);
        }
        let field = slice_subrange(input, pos, pos + 16);
        assert(field@ =~= input@.skip(pos as int).subrange(0, 16));
        match uuid_from_slice(field) {
            Some(value) => Ok((Identifier { value }, pos + 16)),
            None => Err(ConversionError::Truncated),
        }
    }
}

/// The label that classifies a vertex or an edge.
#[derive(Debug, PartialEq, Eq, Hash)]
pub struct Type(pub String);

impl Clone for Type {
    fn clone(&self) -> (copy: Type)
        ensures
            copy == *self,
    {
        Type(self.0.clone())
    }
}

impl DeepView for Type {
    type V = Seq<char>;

    open spec fn deep_view(&self) -> Seq<char> {
        self.0@
    }
}

impl Type {
    /// The label with the text `name`.
    pub fn new(name: String) -> (t: Type)
        ensures
            t.deep_view() == name@,
    {
        Type(name)
    }

    /// The text of this label.
    pub fn as_str(&self) -> (name: &str)
        ensures
            name@ == self.deep_view(),
    {
        self.0.as_str()
    }
}

/// A label on the wire: its text.
impl Wire for Type {
    open spec fn valid(m: Seq<char>) -> bool {
        String::valid(m)
    }

    open spec fn encoding(m: Seq<char>) -> Seq<u8> {
        String::encoding(m)
    }

    open spec fn parse(s: Seq<u8>) -> Result<(Seq<char>, int), ConversionError> {
        String::parse(s)
    }

    proof fn lemma_parse_encoding(m: Seq<char>, rest: Seq<u8>) {
        String::lemma_parse_encoding(m, rest);
    }

    fn write(&self, out: &mut Vec<u8>) {
        self.0.write(out);
    }

    fn read(input: &[u8], pos: usize) -> (r: Result<(Type, usize), ConversionError>) {
        match String::read(input, pos) {
            Ok((name, end)) => Ok((Type(name), end)),
            Err(e) => Err(e),
        }
    }
}

/// The number of nanoseconds in a second.
pub const NANOS_PER_SECOND: u32 = 1_000_000_000;

/// A moment: whole seconds since the epoch and the nanoseconds into the
/// following second.
#[derive(Clone, Copy, Debug, PartialEq, Eq, PartialOrd, Ord, Hash)]
pub struct Timestamp {
    seconds: i64,
    nanos: u32,
}

/// What a `Timestamp` holds.
pub struct TimestampView {
    pub seconds: i64,
    pub nanos: u32,
}

impl DeepView for Timestamp {
    type V = TimestampView;

    closed spec fn deep_view(&self) -> TimestampView {
        TimestampView { seconds: self.seconds, nanos: self.nanos }
    }
}

impl TimestampView {
    /// Whether this moment is `other` or comes before it.
    pub open spec fn at_or_before(self, other: TimestampView) -> bool {
        self.seconds < other.seconds || (self.seconds == other.seconds && self.nanos
            <= other.nanos)
    }
}

impl Timestamp {
    #[verifier::type_invariant]
    spec fn well_formed(self) -> bool {
        self.nanos < NANOS_PER_SECOND
    }

    /// The moment `nanos` nanoseconds after `seconds`, if `nanos` is less than
    /// a second.
    pub fn new(seconds: i64, nanos: u32) -> (t: Option<Timestamp>)
        ensures
            nanos < NANOS_PER_SECOND ==> (t matches Some(at) && at.deep_view() == (TimestampView {
                seconds,
                nanos,
            })),
            nanos >= NANOS_PER_SECOND ==> t is None,
    {
        if nanos < NANOS_PER_SECOND {
            Some(Timestamp { seconds, nanos })
        } else {
            None
        }
    }

    /// The whole seconds since the epoch.
    pub fn seconds(&self) -> (seconds: i64)
        ensures
            seconds == self.deep_view().seconds,
    {
        self.seconds
    }

    /// The nanoseconds into the following second.
    pub fn nanos(&self) -> (nanos: u32)
        ensures
            nanos == self.deep_view().nanos,
            nanos < NANOS_PER_SECOND,
    {
        proof {
            use_type_invariant(self);
        }
        self.nanos
    }

    /// Whether this moment is `other` or comes before it.
    pub fn at_or_before(&self, other: &Timestamp) -> (b: bool)
        ensures
            b == self.deep_view().at_or_before(other.deep_view()),
    {
        self.seconds < other.seconds || (self.seconds == other.seconds && self.nanos
            <= other.nanos)
    }
}

/// A moment on the wire: the seconds, then the nanoseconds. A payload whose
/// nanoseconds make up a second or more is rejected.
impl Wire for Timestamp {
    open spec fn valid(m: TimestampView) -> bool {
        m.nanos < NANOS_PER_SECOND
    }

    open spec fn encoding(m: TimestampView) -> Seq<u8> {
        <(i64, u32)>::encoding((m.seconds, m.nanos))
    }

    open spec fn parse(s: Seq<u8>) -> Result<(TimestampView, int), ConversionError> {
        match <(i64, u32)>::parse(s) {
            Ok(((seconds, nanos), n)) => if nanos < NANOS_PER_SECOND {
                Ok((TimestampView { seconds, nanos }, n))
            } else {
                Err(ConversionError::InvalidTimestamp)
            },
            Err(e) => Err(e),
        }
    }

    proof fn lemma_parse_encoding(m: TimestampView, rest: Seq<u8>) {
        <(i64, u32)>::lemma_parse_encoding((m.seconds, m.nanos), rest);
    }

    fn write(&self, out: &mut Vec<u8>) {
        proof {
            use_type_invariant(self);
        }
        self.seconds.write(out);
        self.nanos.write(out);
        assert(out@ =~= old(out)@ + Self::encoding(self.deep_view()));
    }

    fn read(input: &[u8], pos: usize) -> (r: Result<(Timestamp, usize), ConversionError>) {
        match <(i64, u32)>::read(input, pos) {
            Ok(((seconds, nanos), end)) => {
                if nanos < NANOS_PER_SECOND {
                    Ok((Timestamp { seconds, nanos }, end))
                } else {
                    Err(ConversionError::InvalidTimestamp)
                }
            },
            Err(e) => Err(e),
        }
    }
}

/// Whether a text is JSON: whether `serde_json::from_str` reads a
/// `serde_json::Value` from it.
pub uninterp spec fn is_json_text(text: Seq<char>) -> bool;

/// `serde_json::from_str::<serde_json::Value>`: says whether `text` is JSON.
/// The literal `null` is.
#[verifier::external_body]
fn text_is_json(text: &str) -> (ok: bool)
    ensures
        ok == is_json_text(text@),
        text@ == "null"@ ==> ok,
{
    serde_json::from_str::<serde_json::Value>(text).is_ok()
}

/// A property value: JSON, held as its text.
#[derive(Debug, PartialEq, Eq)]
pub struct Json {
    text: String,
}

impl DeepView for Json {
    type V = Seq<char>;

    closed spec fn deep_view(&self) -> Seq<char> {
        self.text@
    }
}

impl Json {
    #[verifier::type_invariant]
    spec fn well_formed(self) -> bool {
        is_json_text(self.text@)
    }

    /// The value that `text` spells. Fails with `InvalidJson` unless `text` is
    /// JSON.
    pub fn new(text: String) -> (r: Result<Json, ConversionError>)
        ensures
            is_json_text(text@) ==> (r matches Ok(value) && value.deep_view() == text@),
            !is_json_text(text@) ==> r == Err::<Json, ConversionError>(
                ConversionError::InvalidJson,
            ),
    {
        if text_is_json(text.as_str()) {
            Ok(Json { text })
        } else {
            Err(ConversionError::InvalidJson)
        }
    }

    /// The canonical JSON null.
    pub fn null() -> (value: Json)
        ensures
            value.deep_view() == "null"@,
            is_json_text(value.deep_view()),
    {
        let text = "null";
        let ok = text_is_json(text);
        Json { text: text.to_owned() }
    }

    /// The text of this value, which is JSON.
    pub fn as_str(&self) -> (text: &str)
        ensures
            text@ == self.deep_view(),
            is_json_text(text@),
    {
        proof {
            use_type_invariant(self);
        }
        self.text.as_str()
    }
}

impl Clone for Json {
    fn clone(&self) -> (copy: Json)
        ensures
            copy.deep_view() == self.deep_view(),
    {
        proof {
            use_type_invariant(self);
        }
        Json { text: self.text.clone() }
    }
}

/// A property value on the wire: its JSON text. A payload whose text is not
/// JSON is rejected.
impl Wire for Json {
    open spec fn valid(m: Seq<char>) -> bool {
        String::valid(m) && is_json_text(m)
    }

    open spec fn encoding(m: Seq<char>) -> Seq<u8> {
        String::encoding(m)
    }

    open spec fn parse(s: Seq<u8>) -> Result<(Seq<char>, int), ConversionError> {
        match String::parse(s) {
            Ok((text, n)) => if is_json_text(text) {
                Ok((text, n))
            } else {
                Err(ConversionError::InvalidJson)
            },
            Err(e) => Err(e),
        }
    }

    proof fn lemma_parse_encoding(m: Seq<char>, rest: Seq<u8>) {
        String::lemma_parse_encoding(m, rest);
    }

    fn write(&self, out: &mut Vec<u8>) {
        proof {
            use_type_invariant(self);
        }
        self.text.write(out);
    }

    fn read(input: &[u8], pos: usize) -> (r: Result<(Json, usize), ConversionError>) {
        match String::read(input, pos) {
            Ok((text, end)) => {
                if text_is_json(text.as_str()) {
                    Ok((Json { text }, end))
                } else {
                    Err(ConversionError::InvalidJson)
                }
            },
            Err(e) => Err(e),
        }
    }
}

} // verus!
