//! Vertices, edges and the properties attached to them, each with its wire
//! encoding. A record is encoded as its fields in the order of declaration.

use crate::errors::ConversionError;
use crate::models::{Identifier, Json, Timestamp, TimestampView, Type};
use crate::wire::Wire;
use vstd::prelude::*;

verus! {

/// A vertex: its identifier and the label that classifies it.
#[derive(Clone, Debug, PartialEq, Eq)]
pub struct Vertex {
    pub id: Identifier,
    pub t: Type,
}

/// What a `Vertex` holds.
pub struct VertexView {
    pub id: u128,
    pub t: Seq<char>,
}

impl DeepView for Vertex {
    type V = VertexView;

    open spec fn deep_view(&self) -> VertexView {
        VertexView { id: self.id.deep_view(), t: self.t.deep_view() }
    }
}

impl Vertex {
    /// The vertex named `id` and classified by `t`.
    pub fn with_id(id: Identifier, t: Type) -> (v: Vertex)
        ensures
            v.id == id,
            v.t == t,
    {
        Vertex { id, t }
    }
}

impl Wire for Vertex {
    open spec fn valid(m: VertexView) -> bool {
        <(Identifier, Type)>::valid((m.id, m.t))
    }

    open spec fn encoding(m: VertexView) -> Seq<u8> {
        <(Identifier, Type)>::encoding((m.id, m.t))
    }

    open spec fn parse(s: Seq<u8>) -> Result<(VertexView, int), ConversionError> {
        match <(Identifier, Type)>::parse(s) {
            Ok(((id, t), n)) => Ok((VertexView { id, t }, n)),
            Err(e) => Err(e),
        }
    }

    proof fn lemma_parse_encoding(m: VertexView, rest: Seq<u8>) {
        <(Identifier, Type)>::lemma_parse_encoding((m.id, m.t), rest);
    }

    fn write(&self, out: &mut Vec<u8>) {
        self.id.write(out);
        self.t.write(out);
        assert(out@ =~= old(out)@ + Self::encoding(self.deep_view()));
    }

    fn read(input: &[u8], pos: usize) -> (r: Result<(Vertex, usize), ConversionError>) {
        match <(Identifier, Type)>::read(input, pos) {
            Ok(((id, t), end)) => Ok((Vertex { id, t }, end)),
            Err(e) => Err(e),
        }
    }
}

/// The name of an edge: where it starts, its label, and where it ends.
#[derive(Clone, Debug, PartialEq, Eq)]
pub struct EdgeKey {
    pub outbound_id: Identifier,
    pub t: Type,
    pub inbound_id: Identifier,
}

/// What an `EdgeKey` holds.
pub struct EdgeKeyView {
    pub outbound_id: u128,
    pub t: Seq<char>,
    pub inbound_id: u128,
}

impl DeepView for EdgeKey {
    type V = EdgeKeyView;

    open spec fn deep_view(&self) -> EdgeKeyView {
        EdgeKeyView {
            outbound_id: self.outbound_id.deep_view(),
            t: self.t.deep_view(),
            inbound_id: self.inbound_id.deep_view(),
        }
    }
}

impl EdgeKey {
    /// The key of the edge from `outbound_id` to `inbound_id` labelled `t`.
    pub fn new(outbound_id: Identifier, t: Type, inbound_id: Identifier) -> (key: EdgeKey)
        ensures
            key.outbound_id == outbound_id,
            key.t == t,
            key.inbound_id == inbound_id,
    {
        EdgeKey { outbound_id, t, inbound_id }
    }
}

impl Wire for EdgeKey {
    open spec fn valid(m: EdgeKeyView) -> bool {
        <(Identifier, (Type, Identifier))>::valid((m.outbound_id, (m.t, m.inbound_id)))
    }

    open spec fn encoding(m: EdgeKeyView) -> Seq<u8> {
        <(Identifier, (Type, Identifier))>::encoding((m.outbound_id, (m.t, m.inbound_id)))
    }

    open spec fn parse(s: Seq<u8>) -> Result<(EdgeKeyView, int), ConversionError> {
        match <(Identifier, (Type, Identifier))>::parse(s) {
            Ok(((outbound_id, (t, inbound_id)), n)) => Ok(
                (EdgeKeyView { outbound_id, t, inbound_id }, n),
            ),
            Err(e) => Err(e),
        }
    }

    proof fn lemma_parse_encoding(m: EdgeKeyView, rest: Seq<u8>) {
        <(Identifier, (Type, Identifier))>::lemma_parse_encoding(
            (m.outbound_id, (m.t, m.inbound_id)),
            rest,
        );
    }

    fn write(&self, out: &mut Vec<u8>) {
        self.outbound_id.write(out);
        self.t.write(out);
        self.inbound_id.write(out);
        assert(out@ =~= old(out)@ + Self::encoding(self.deep_view()));
    }

    fn read(input: &[u8], pos: usize) -> (r: Result<(EdgeKey, usize), ConversionError>) {
        match <(Identifier, (Type, Identifier))>::read(input, pos) {
            Ok(((outbound_id, (t, inbound_id)), end)) => Ok(
                (EdgeKey { outbound_id, t, inbound_id }, end),
            ),
            Err(e) => Err(e),
        }
    }
}

/// An edge: its key and the moment the server last created or refreshed it.
#[derive(Clone, Debug, PartialEq, Eq)]
pub struct Edge {
    pub key: EdgeKey,
    pub updated: Timestamp,
}

/// What an `Edge` holds.
pub struct EdgeView {
    pub key: EdgeKeyView,
    pub updated: TimestampView,
}

impl DeepView for Edge {
    type V = EdgeView;

    open spec fn deep_view(&self) -> EdgeView {
        EdgeView { key: self.key.deep_view(), updated: self.updated.deep_view() }
    }
}

impl Wire for Edge {
    open spec fn valid(m: EdgeView) -> bool {
        <(EdgeKey, Timestamp)>::valid((m.key, m.updated))
    }

    open spec fn encoding(m: EdgeView) -> Seq<u8> {
        <(EdgeKey, Timestamp)>::encoding((m.key, m.updated))
    }

    open spec fn parse(s: Seq<u8>) -> Result<(EdgeView, int), ConversionError> {
        match <(EdgeKey, Timestamp)>::parse(s) {
            Ok(((key, updated), n)) => Ok((EdgeView { key, updated }, n)),
            Err(e) => Err(e),
        }
    }

    proof fn lemma_parse_encoding(m: EdgeView, rest: Seq<u8>) {
        <(EdgeKey, Timestamp)>::lemma_parse_encoding((m.key, m.updated), rest);
    }

    fn write(&self, out: &mut Vec<u8>) {
        self.key.write(out);
        self.updated.write(out);
        assert(out@ =~= old(out)@ + Self::encoding(self.deep_view()));
    }

    fn read(input: &[u8], pos: usize) -> (r: Result<(Edge, usize), ConversionError>) {
        match <(EdgeKey, Timestamp)>::read(input, pos) {
            Ok(((key, updated), end)) => Ok((Edge { key, updated }, end)),
            Err(e) => Err(e),
        }
    }
}

/// A property: a name and the JSON value under it.
#[derive(Clone, Debug, PartialEq, Eq)]
pub struct NamedProperty {
    pub name: String,
    pub value: Json,
}

/// What a `NamedProperty` holds.
pub struct NamedPropertyView {
    pub name: Seq<char>,
    pub value: Seq<char>,
}

impl DeepView for NamedProperty {
    type V = NamedPropertyView;

    open spec fn deep_view(&self) -> NamedPropertyView {
        NamedPropertyView { name: self.name.deep_view(), value: self.value.deep_view() }
    }
}

impl Wire for NamedProperty {
    open spec fn valid(m: NamedPropertyView) -> bool {
        <(String, Json)>::valid((m.name, m.value))
    }

    open spec fn encoding(m: NamedPropertyView) -> Seq<u8> {
        <(String, Json)>::encoding((m.name, m.value))
    }

    open spec fn parse(s: Seq<u8>) -> Result<(NamedPropertyView, int), ConversionError> {
        match <(String, Json)>::parse(s) {
            Ok(((name, value), n)) => Ok((NamedPropertyView { name, value }, n)),
            Err(e) => Err(e),
        }
    }

    proof fn lemma_parse_encoding(m: NamedPropertyView, rest: Seq<u8>) {
        <(String, Json)>::lemma_parse_encoding((m.name, m.value), rest);
    }

    fn write(&self, out: &mut Vec<u8>) {
        self.name.write(out);
        self.value.write(out);
        assert(out@ =~= old(out)@ + Self::encoding(self.deep_view()));
    }

    fn read(input: &[u8], pos: usize) -> (r: Result<(NamedProperty, usize), ConversionError>) {
        match <(String, Json)>::read(input, pos) {
            Ok(((name, value), end)) => Ok((NamedProperty { name, value }, end)),
            Err(e) => Err(e),
        }
    }
}

/// The value that one vertex holds under a queried name.
#[derive(Clone, Debug, PartialEq, Eq)]
pub struct VertexMetadata {
    pub id: Identifier,
    pub value: Json,
}

/// What a `VertexMetadata` holds.
pub struct VertexMetadataView {
    pub id: u128,
    pub value: Seq<char>,
}

impl DeepView for VertexMetadata {
    type V = VertexMetadataView;

    open spec fn deep_view(&self) -> VertexMetadataView {
        VertexMetadataView { id: self.id.deep_view(), value: self.value.deep_view() }
    }
}

impl Wire for VertexMetadata {
    open spec fn valid(m: VertexMetadataView) -> bool {
        <(Identifier, Json)>::valid((m.id, m.value))
    }

    open spec fn encoding(m: VertexMetadataView) -> Seq<u8> {
        <(Identifier, Json)>::encoding((m.id, m.value))
    }

    open spec fn parse(s: Seq<u8>) -> Result<(VertexMetadataView, int), ConversionError> {
        match <(Identifier, Json)>::parse(s) {
            Ok(((id, value), n)) => Ok((VertexMetadataView { id, value }, n)),
            Err(e) => Err(e),
        }
    }

    proof fn lemma_parse_encoding(m: VertexMetadataView, rest: Seq<u8>) {
        <(Identifier, Json)>::lemma_parse_encoding((m.id, m.value), rest);
    }

    fn write(&self, out: &mut Vec<u8>) {
        self.id.write(out);
        self.value.write(out);
        assert(out@ =~= old(out)@ + Self::encoding(self.deep_view()));
    }

    fn read(input: &[u8], pos: usize) -> (r: Result<(VertexMetadata, usize), ConversionError>) {
        match <(Identifier, Json)>::read(input, pos) {
            Ok(((id, value), end)) => Ok((VertexMetadata { id, value }, end)),
            Err(e) => Err(e),
        }
    }
}

/// The value that one edge holds under a queried name.
#[derive(Clone, Debug, PartialEq, Eq)]
pub struct EdgeMetadata {
    pub key: EdgeKey,
    pub value: Json,
}

/// What an `EdgeMetadata` holds.
pub struct EdgeMetadataView {
    pub key: EdgeKeyView,
    pub value: Seq<char>,
}

impl DeepView for EdgeMetadata {
    type V = EdgeMetadataView;

    open spec fn deep_view(&self) -> EdgeMetadataView {
        EdgeMetadataView { key: self.key.deep_view(), value: self.value.deep_view() }
    }
}

impl Wire for EdgeMetadata {
    open spec fn valid(m: EdgeMetadataView) -> bool {
        <(EdgeKey, Json)>::valid((m.key, m.value))
    }

    open spec fn encoding(m: EdgeMetadataView) -> Seq<u8> {
        <(EdgeKey, Json)>::encoding((m.key, m.value))
    }

    open spec fn parse(s: Seq<u8>) -> Result<(EdgeMetadataView, int), ConversionError> {
        match <(EdgeKey, Json)>::parse(s) {
            Ok(((key, value), n)) => Ok((EdgeMetadataView { key, value }, n)),
            Err(e) => Err(e),
        }
    }

    proof fn lemma_parse_encoding(m: EdgeMetadataView, rest: Seq<u8>) {
        <(EdgeKey, Json)>::lemma_parse_encoding((m.key, m.value), rest);
    }

    fn write(&self, out: &mut Vec<u8>) {
        self.key.write(out);
        self.value.write(out);
        assert(out@ =~= old(out)@ + Self::encoding(self.deep_view()));
    }

    fn read(input: &[u8], pos: usize) -> (r: Result<(EdgeMetadata, usize), ConversionError>) {
        match <(EdgeKey, Json)>::read(input, pos) {
            Ok(((key, value), end)) => Ok((EdgeMetadata { key, value }, end)),
            Err(e) => Err(e),
        }
    }
}

/// A vertex with every property it holds.
#[derive(Clone, Debug, PartialEq, Eq)]
pub struct VertexProperties {
    pub vertex: Vertex,
    pub props: Vec<NamedProperty>,
}

/// What a `VertexProperties` holds.
pub struct VertexPropertiesView {
    pub vertex: VertexView,
    pub props: Seq<NamedPropertyView>,
}

impl DeepView for VertexProperties {
    type V = VertexPropertiesView;

    open spec fn deep_view(&self) -> VertexPropertiesView {
        VertexPropertiesView { vertex: self.vertex.deep_view(), props: self.props.deep_view() }
    }
}

impl Wire for VertexProperties {
    open spec fn valid(m: VertexPropertiesView) -> bool {
        <(Vertex, Vec<NamedProperty>)>::valid((m.vertex, m.props))
    }

    open spec fn encoding(m: VertexPropertiesView) -> Seq<u8> {
        <(Vertex, Vec<NamedProperty>)>::encoding((m.vertex, m.props))
    }

    open spec fn parse(s: Seq<u8>) -> Result<(VertexPropertiesView, int), ConversionError> {
        match <(Vertex, Vec<NamedProperty>)>::parse(s) {
            Ok(((vertex, props), n)) => Ok((VertexPropertiesView { vertex, props }, n)),
            Err(e) => Err(e),
        }
    }

    proof fn lemma_parse_encoding(m: VertexPropertiesView, rest: Seq<u8>) {
        <(Vertex, Vec<NamedProperty>)>::lemma_parse_encoding((m.vertex, m.props), rest);
    }

    fn write(&self, out: &mut Vec<u8>) {
        self.vertex.write(out);
        self.props.write(out);
        assert(out@ =~= old(out)@ + Self::encoding(self.deep_view()));
    }

    fn read(input: &[u8], pos: usize) -> (r: Result<(VertexProperties, usize), ConversionError>) {
        match <(Vertex, Vec<NamedProperty>)>::read(input, pos) {
            Ok(((vertex, props), end)) => Ok((VertexProperties { vertex, props }, end)),
            Err(e) => Err(e),
        }
    }
}

/// An edge with every property it holds.
#[derive(Clone, Debug, PartialEq, Eq)]
pub struct EdgeProperties {
    pub edge: Edge,
    pub props: Vec<NamedProperty>,
}

/// What an `EdgeProperties` holds.
pub struct EdgePropertiesView {
    pub edge: EdgeView,
    pub props: Seq<NamedPropertyView>,
}

impl DeepView for EdgeProperties {
    type V = EdgePropertiesView;

    open spec fn deep_view(&self) -> EdgePropertiesView {
        EdgePropertiesView { edge: self.edge.deep_view(), props: self.props.deep_view() }
    }
}

impl Wire for EdgeProperties {
    open spec fn valid(m: EdgePropertiesView) -> bool {
        <(Edge, Vec<NamedProperty>)>::valid((m.edge, m.props))
    }

    open spec fn encoding(m: EdgePropertiesView) -> Seq<u8> {
        <(Edge, Vec<NamedProperty>)>::encoding((m.edge, m.props))
    }

    open spec fn parse(s: Seq<u8>) -> Result<(EdgePropertiesView, int), ConversionError> {
        match <(Edge, Vec<NamedProperty>)>::parse(s) {
            Ok(((edge, props), n)) => Ok((EdgePropertiesView { edge, props }, n)),
            Err(e) => Err(e),
        }
    }

    proof fn lemma_parse_encoding(m: EdgePropertiesView, rest: Seq<u8>) {
        <(Edge, Vec<NamedProperty>)>::lemma_parse_encoding((m.edge, m.props), rest);
    }

    fn write(&self, out: &mut Vec<u8>) {
        self.edge.write(out);
        self.props.write(out);
        assert(out@ =~= old(out)@ + Self::encoding(self.deep_view()));
    }

    fn read(input: &[u8], pos: usize) -> (r: Result<(EdgeProperties, usize), ConversionError>) {
        match <(Edge, Vec<NamedProperty>)>::read(input, pos) {
            Ok(((edge, props), end)) => Ok((EdgeProperties { edge, props }, end)),
            Err(e) => Err(e),
        }
    }
}

} // verus!
