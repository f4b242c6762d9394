//! The items of a bulk load and the shapes a query can answer with.

use crate::composites::{lemma_parse_variant, parse_variant, read_variant};
use crate::entities::{
    Edge, EdgeKey, EdgeKeyView, EdgeProperties, EdgePropertiesView, EdgeView, Vertex,
    VertexProperties, VertexPropertiesView, VertexView,
};
use crate::errors::ConversionError;
use crate::models::{Identifier, Json};
use crate::wire::Wire;
use vstd::prelude::*;

verus! {

/// One item of a bulk load.
#[derive(Clone, Debug, PartialEq, Eq)]
pub enum BulkInsertItem {
    /// A vertex to create.
    Vertex(Vertex),
    /// An edge to create.
    Edge(EdgeKey),
    /// A property to set on a vertex: the vertex, the name, the value.
    VertexProperty(Identifier, String, Json),
    /// A property to set on an edge: the edge, the name, the value.
    EdgeProperty(EdgeKey, String, Json),
}

/// What a `BulkInsertItem` holds.
pub enum BulkInsertItemView {
    Vertex(VertexView),
    Edge(EdgeKeyView),
    VertexProperty(u128, Seq<char>, Seq<char>),
    EdgeProperty(EdgeKeyView, Seq<char>, Seq<char>),
}

impl DeepView for BulkInsertItem {
    type V = BulkInsertItemView;

    open spec fn deep_view(&self) -> BulkInsertItemView {
        match self {
            BulkInsertItem::Vertex(v) => BulkInsertItemView::Vertex(v.deep_view()),
            BulkInsertItem::Edge(key) => BulkInsertItemView::Edge(key.deep_view()),
            BulkInsertItem::VertexProperty(id, name, value) => BulkInsertItemView::VertexProperty(
                id.deep_view(),
                name.deep_view(),
                value.deep_view(),
            ),
            BulkInsertItem::EdgeProperty(key, name, value) => BulkInsertItemView::EdgeProperty(
                key.deep_view(),
                name.deep_view(),
                value.deep_view(),
            ),
        }
    }
}

impl Wire for BulkInsertItem {
    open spec fn valid(m: BulkInsertItemView) -> bool {
        match m {
            BulkInsertItemView::Vertex(v) => Vertex::valid(v),
            BulkInsertItemView::Edge(key) => EdgeKey::valid(key),
            BulkInsertItemView::VertexProperty(id, name, value) => <(
                Identifier,
                (String, Json),
            )>::valid((id, (name, value))),
            BulkInsertItemView::EdgeProperty(key, name, value) => <(
                EdgeKey,
                (String, Json),
            )>::valid((key, (name, value))),
        }
    }

    open spec fn encoding(m: BulkInsertItemView) -> Seq<u8> {
        match m {
            BulkInsertItemView::Vertex(v) => u8::encoding(0) + Vertex::encoding(v),
            BulkInsertItemView::Edge(key) => u8::encoding(1) + EdgeKey::encoding(key),
            BulkInsertItemView::VertexProperty(id, name, value) => u8::encoding(2) + <(
                Identifier,
                (String, Json),
            )>::encoding((id, (name, value))),
            BulkInsertItemView::EdgeProperty(key, name, value) => u8::encoding(3) + <(
                EdgeKey,
                (String, Json),
            )>::encoding((key, (name, value))),
        }
    }

    open spec fn parse(s: Seq<u8>) -> Result<(BulkInsertItemView, int), ConversionError> {
        match u8::parse(s) {
            Err(e) => Err(e),
            Ok((tag, n)) => if tag == 0 {
                match parse_variant::<Vertex>(s, n) {
                    Ok((v, k)) => Ok((BulkInsertItemView::Vertex(v), k)),
                    Err(e) => Err(e),
                }
            } else if tag == 1 {
                match parse_variant::<EdgeKey>(s, n) {
                    Ok((key, k)) => Ok((BulkInsertItemView::Edge(key), k)),
                    Err(e) => Err(e),
                }
            } else if tag == 2 {
                match parse_variant::<(Identifier, (String, Json))>(s, n) {
                    Ok(((id, (name, value)), k)) => Ok(
                        (BulkInsertItemView::VertexProperty(id, name, value), k),
                    ),
                    Err(e) => Err(e),
                }
            } else if tag == 3 {
                match parse_variant::<(EdgeKey, (String, Json))>(s, n) {
                    Ok(((key, (name, value)), k)) => Ok(
                        (BulkInsertItemView::EdgeProperty(key, name, value), k),
                    ),
                    Err(e) => Err(e),
                }
            } else {
                Err(ConversionError::UnknownTag { tag })
            },
        }
    }

    proof fn lemma_parse_encoding(m: BulkInsertItemView, rest: Seq<u8>) {
        match m {
            BulkInsertItemView::Vertex(v) => lemma_parse_variant::<Vertex>(0, v, rest),
            BulkInsertItemView::Edge(key) => lemma_parse_variant::<EdgeKey>(1, key, rest),
            BulkInsertItemView::VertexProperty(id, name, value) => lemma_parse_variant::<
                (Identifier, (String, Json)),
            >(2, (id, (name, value)), rest),
            BulkInsertItemView::EdgeProperty(key, name, value) => lemma_parse_variant::<
                (EdgeKey, (String, Json)),
            >(3, (key, (name, value)), rest),
        }
    }

    fn write(&self, out: &mut Vec<u8>) {
        match self {
            BulkInsertItem::Vertex(v) => {
                let tag: u8 = 0;
                tag.write(out);
                v.write(out);
            },
            BulkInsertItem::Edge(key) => {
                let tag: u8 = 1;
                tag.write(out);
                key.write(out);
            },
            BulkInsertItem::VertexProperty(id, name, value) => {
                let tag: u8 = 2;
                tag.write(out);
                id.write(out);
                name.write(out);
                value.write(out);
            },
            BulkInsertItem::EdgeProperty(key, name, value) => {
                let tag: u8 = 3;
                tag.write(out);
                key.write(out);
                name.write(out);
                value.write(out);
            },
        }
        assert(out@ =~= old(out)@ + Self::encoding(self.deep_view()));
    }

    fn read(input: &[u8], pos: usize) -> (r: Result<(BulkInsertItem, usize), ConversionError>) {
        let (tag, start) = match u8::read(input, pos) {
            Ok(found) => found,
            Err(e) => {
                return Err(e);
            },
        };
        if tag == 0 {
            match read_variant::<Vertex>(input, pos, start) {
                Ok((v, end)) => Ok((BulkInsertItem::Vertex(v), end)),
                Err(e) => Err(e),
            }
        } else if tag == 1 {
            match read_variant::<EdgeKey>(input, pos, start) {
                Ok((key, end)) => Ok((BulkInsertItem::Edge(key), end)),
                Err(e) => Err(e),
            }
        } else if tag == 2 {
            match read_variant::<(Identifier, (String, Json))>(input, pos, start) {
                Ok(((id, (name, value)), end)) => Ok(
                    (BulkInsertItem::VertexProperty(id, name, value), end),
                ),
                Err(e) => Err(e),
            }
        } else if tag == 3 {
            match read_variant::<(EdgeKey, (String, Json))>(input, pos, start) {
                Ok(((key, (name, value)), end)) => Ok(
                    (BulkInsertItem::EdgeProperty(key, name, value), end),
                ),
                Err(e) => Err(e),
            }
        } else {
            Err(ConversionError::UnknownTag { tag })
        }
    }
}

/// One value that a query answers with.
#[derive(Clone, Debug, PartialEq, Eq)]
pub enum QueryOutputValue {
    Vertices(Vec<Vertex>),
    Edges(Vec<Edge>),
    Count(u64),
    VertexProperties(Vec<VertexProperties>),
    EdgeProperties(Vec<EdgeProperties>),
}

/// What a `QueryOutputValue` holds.
pub enum QueryOutputValueView {
    Vertices(Seq<VertexView>),
    Edges(Seq<EdgeView>),
    Count(u64),
    VertexProperties(Seq<VertexPropertiesView>),
    EdgeProperties(Seq<EdgePropertiesView>),
}

impl DeepView for QueryOutputValue {
    type V = QueryOutputValueView;

    open spec fn deep_view(&self) -> QueryOutputValueView {
        match self {
            QueryOutputValue::Vertices(v) => QueryOutputValueView::Vertices(v.deep_view()),
            QueryOutputValue::Edges(v) => QueryOutputValueView::Edges(v.deep_view()),
            QueryOutputValue::Count(n) => QueryOutputValueView::Count(*n),
            QueryOutputValue::VertexProperties(v) => QueryOutputValueView::VertexProperties(
                v.deep_view(),
            ),
            QueryOutputValue::EdgeProperties(v) => QueryOutputValueView::EdgeProperties(
                v.deep_view(),
            ),
        }
    }
}

impl Wire for QueryOutputValue {
    open spec fn valid(m: QueryOutputValueView) -> bool {
        match m {
            QueryOutputValueView::Vertices(v) => Vec::<Vertex>::valid(v),
            QueryOutputValueView::Edges(v) => Vec::<Edge>::valid(v),
            QueryOutputValueView::Count(n) => true,
            QueryOutputValueView::VertexProperties(v) => Vec::<VertexProperties>::valid(v),
            QueryOutputValueView::EdgeProperties(v) => Vec::<EdgeProperties>::valid(v),
        }
    }

    open spec fn encoding(m: QueryOutputValueView) -> Seq<u8> {
        match m {
            QueryOutputValueView::Vertices(v) => u8::encoding(0) + Vec::<Vertex>::encoding(v),
            QueryOutputValueView::Edges(v) => u8::encoding(1) + Vec::<Edge>::encoding(v),
            QueryOutputValueView::Count(n) => u8::encoding(2) + u64::encoding(n),
            QueryOutputValueView::VertexProperties(v) => u8::encoding(3) + Vec::<
                VertexProperties,
            >::encoding(v),
            QueryOutputValueView::EdgeProperties(v) => u8::encoding(4) + Vec::<
                EdgeProperties,
            >::encoding(v),
        }
    }

    open spec fn parse(s: Seq<u8>) -> Result<(QueryOutputValueView, int), ConversionError> {
        match u8::parse(s) {
            Err(e) => Err(e),
            Ok((tag, n)) => if tag == 0 {
                match parse_variant::<Vec<Vertex>>(s, n) {
                    Ok((v, k)) => Ok((QueryOutputValueView::Vertices(v), k)),
                    Err(e) => Err(e),
                }
            } else if tag == 1 {
                match parse_variant::<Vec<Edge>>(s, n) {
                    Ok((v, k)) => Ok((QueryOutputValueView::Edges(v), k)),
                    Err(e) => Err(e),
                }
            } else if tag == 2 {
                match parse_variant::<u64>(s, n) {
                    Ok((count, k)) => Ok((QueryOutputValueView::Count(count), k)),
                    Err(e) => Err(e),
                }
            } else if tag == 3 {
                match parse_variant::<Vec<VertexProperties>>(s, n) {
                    Ok((v, k)) => Ok((QueryOutputValueView::VertexProperties(v), k)),
                    Err(e) => Err(e),
                }
            } else if tag == 4 {
                match parse_variant::<Vec<EdgeProperties>>(s, n) {
                    Ok((v, k)) => Ok((QueryOutputValueView::EdgeProperties(v), k)),
                    Err(e) => Err(e),
                }
            } else {
                Err(ConversionError::UnknownTag { tag })
            },
        }
    }

    proof fn lemma_parse_encoding(m: QueryOutputValueView, rest: Seq<u8>) {
        match m {
            QueryOutputValueView::Vertices(v) => lemma_parse_variant::<Vec<Vertex>>(0, v, rest),
            QueryOutputValueView::Edges(v) => lemma_parse_variant::<Vec<Edge>>(1, v, rest),
            QueryOutputValueView::Count(n) => lemma_parse_variant::<u64>(2, n, rest),
            QueryOutputValueView::VertexProperties(v) => lemma_parse_variant::<
                Vec<VertexProperties>,
            >(3, v, rest),
            QueryOutputValueView::EdgeProperties(v) => lemma_parse_variant::<Vec<EdgeProperties>>(
                4,
                v,
                rest,
            ),
        }
    }

    fn write(&self, out: &mut Vec<u8>) {
        match self {
            QueryOutputValue::Vertices(v) => {
                let tag: u8 = 0;
                tag.write(out);
                v.write(out);
            },
            QueryOutputValue::Edges(v) => {
                let tag: u8 = 1;
                tag.write(out);
                v.write(out);
            },
            QueryOutputValue::Count(n) => {
                let tag: u8 = 2;
                tag.write(out);
                n.write(out);
            },
            QueryOutputValue::VertexProperties(v) => {
                let tag: u8 = 3;
                tag.write(out);
                v.write(out);
            },
            QueryOutputValue::EdgeProperties(v) => {
                let tag: u8 = 4;
                tag.write(out);
                v.write(out);
            },
        }
        assert(out@ =~= old(out)@ + Self::encoding(self.deep_view()));
    }

    fn read(input: &[u8], pos: usize) -> (r: Result<(QueryOutputValue, usize), ConversionError>) {
        let (tag, start) = match u8::read(input, pos) {
            Ok(found) => found,
            Err(e) => {
                return Err(e);
            },
        };
        if tag == 0 {
            match read_variant::<Vec<Vertex>>(input, pos, start) {
                Ok((v, end)) => Ok((QueryOutputValue::Vertices(v), end)),
                Err(e) => Err(e),
            }
        } else if tag == 1 {
            match read_variant::<Vec<Edge>>(input, pos, start) {
                Ok((v, end)) => Ok((QueryOutputValue::Edges(v), end)),
                Err(e) => Err(e),
            }
        } else if tag == 2 {
            match read_variant::<u64>(input, pos, start) {
                Ok((count, end)) => Ok((QueryOutputValue::Count(count), end)),
                Err(e) => Err(e),
            }
        } else if tag == 3 {
            match read_variant::<Vec<VertexProperties>>(input, pos, start) {
                Ok((v, end)) => Ok((QueryOutputValue::VertexProperties(v), end)),
                Err(e) => Err(e),
            }
        } else if tag == 4 {
            match read_variant::<Vec<EdgeProperties>>(input, pos, start) {
                Ok((v, end)) => Ok((QueryOutputValue::EdgeProperties(v), end)),
                Err(e) => Err(e),
            }
        } else {
            Err(ConversionError::UnknownTag { tag })
        }
    }
}

} // verus!
