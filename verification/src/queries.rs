//! Selections over the graph. Each is a closed tagged union: on the wire one
//! tag byte names the variant, and a tag that names none is rejected.

use crate::composites::{lemma_parse_variant, parse_variant, read_variant};
use crate::entities::{EdgeKey, EdgeKeyView};
use crate::errors::ConversionError;
use crate::models::{Identifier, Type};
use crate::wire::Wire;
use vstd::prelude::*;

verus! {

/// Which end of an edge a vertex is on.
#[derive(Clone, Copy, Debug, PartialEq, Eq, Structural)]
pub enum EdgeDirection {
    Outbound,
    Inbound,
}

impl DeepView for EdgeDirection {
    type V = EdgeDirection;

    open spec fn deep_view(&self) -> EdgeDirection {
        *self
    }
}

impl EdgeDirection {
    /// The tag that names this direction on the wire.
    pub open spec fn tag(self) -> u8 {
        match self {
            EdgeDirection::Outbound => 0,
            EdgeDirection::Inbound => 1,
        }
    }
}

impl Wire for EdgeDirection {
    open spec fn valid(m: EdgeDirection) -> bool {
        true
    }

    open spec fn encoding(m: EdgeDirection) -> Seq<u8> {
        u8::encoding(m.tag())
    }

    open spec fn parse(s: Seq<u8>) -> Result<(EdgeDirection, int), ConversionError> {
        match u8::parse(s) {
            Err(e) => Err(e),
            Ok((tag, n)) => if tag == 0 {
                Ok((EdgeDirection::Outbound, n))
            } else if tag == 1 {
                Ok((EdgeDirection::Inbound, n))
            } else {
                Err(ConversionError::UnknownTag { tag })
            },
        }
    }

    proof fn lemma_parse_encoding(m: EdgeDirection, rest: Seq<u8>) {
        u8::lemma_parse_encoding(m.tag(), rest);
    }

    fn write(&self, out: &mut Vec<u8>) {
        let tag: u8 = match self {
            EdgeDirection::Outbound => 0,
            EdgeDirection::Inbound => 1,
        };
        tag.write(out);
    }

    fn read(input: &[u8], pos: usize) -> (r: Result<(EdgeDirection, usize), ConversionError>) {
        match u8::read(input, pos) {
            Err(e) => Err(e),
            Ok((tag, end)) => {
                if tag == 0 {
                    Ok((EdgeDirection::Outbound, end))
                } else if tag == 1 {
                    Ok((EdgeDirection::Inbound, end))
                } else {
                    Err(ConversionError::UnknownTag { tag })
                }
            },
        }
    }
}

/// A page of vertices in identifier order: at most `limit` of them, after
/// `start_id` if there is one, of type `t` if there is one.
#[derive(Clone, Debug, PartialEq, Eq)]
pub struct RangeVertexQuery {
    pub limit: u32,
    pub t: Option<Type>,
    pub start_id: Option<Identifier>,
}

/// What a `RangeVertexQuery` holds.
pub struct RangeVertexQueryView {
    pub limit: u32,
    pub t: Option<Seq<char>>,
    pub start_id: Option<u128>,
}

impl DeepView for RangeVertexQuery {
    type V = RangeVertexQueryView;

    open spec fn deep_view(&self) -> RangeVertexQueryView {
        RangeVertexQueryView {
            limit: self.limit,
            t: self.t.deep_view(),
            start_id: self.start_id.deep_view(),
        }
    }
}

impl Wire for RangeVertexQuery {
    open spec fn valid(m: RangeVertexQueryView) -> bool {
        <(u32, (Option<Type>, Option<Identifier>))>::valid((m.limit, (m.t, m.start_id)))
    }

    open spec fn encoding(m: RangeVertexQueryView) -> Seq<u8> {
        <(u32, (Option<Type>, Option<Identifier>))>::encoding((m.limit, (m.t, m.start_id)))
    }

    open spec fn parse(s: Seq<u8>) -> Result<(RangeVertexQueryView, int), ConversionError> {
        match <(u32, (Option<Type>, Option<Identifier>))>::parse(s) {
            Ok(((limit, (t, start_id)), n)) => Ok(
                (RangeVertexQueryView { limit, t, start_id }, n),
            ),
            Err(e) => Err(e),
        }
    }

    proof fn lemma_parse_encoding(m: RangeVertexQueryView, rest: Seq<u8>) {
        <(u32, (Option<Type>, Option<Identifier>))>::lemma_parse_encoding(
            (m.limit, (m.t, m.start_id)),
            rest,
        );
    }

    fn write(&self, out: &mut Vec<u8>) {
        self.limit.write(out);
        self.t.write(out);
        self.start_id.write(out);
        assert(out@ =~= old(out)@ + Self::encoding(self.deep_view()));
    }

    fn read(input: &[u8], pos: usize) -> (r: Result<(RangeVertexQuery, usize), ConversionError>) {
        match <(u32, (Option<Type>, Option<Identifier>))>::read(input, pos) {
            Ok(((limit, (t, start_id)), end)) => Ok((RangeVertexQuery { limit, t, start_id }, end)),
            Err(e) => Err(e),
        }
    }
}

/// A selection of vertices.
#[derive(Clone, Debug, PartialEq, Eq)]
pub enum VertexQuery {
    /// A page of the vertices in identifier order.
    Range(RangeVertexQuery),
    /// The vertices with the given identifiers.
    Specific { ids: Vec<Identifier> },
}

/// What a `VertexQuery` holds.
pub enum VertexQueryView {
    Range(RangeVertexQueryView),
    Specific { ids: Seq<u128> },
}

impl DeepView for VertexQuery {
    type V = VertexQueryView;

    open spec fn deep_view(&self) -> VertexQueryView {
        match self {
            VertexQuery::Range(q) => VertexQueryView::Range(q.deep_view()),
            VertexQuery::Specific { ids } => VertexQueryView::Specific { ids: ids.deep_view() },
        }
    }
}

impl RangeVertexQuery {
    /// This page as a selection of vertices.
    pub fn into_query(self) -> (q: VertexQuery)
        ensures
            q == VertexQuery::Range(self),
    {
        VertexQuery::Range(self)
    }
}

impl Wire for VertexQuery {
    open spec fn valid(m: VertexQueryView) -> bool {
        match m {
            VertexQueryView::Range(q) => RangeVertexQuery::valid(q),
            VertexQueryView::Specific { ids } => Vec::<Identifier>::valid(ids),
        }
    }

    open spec fn encoding(m: VertexQueryView) -> Seq<u8> {
        match m {
            VertexQueryView::Range(q) => u8::encoding(0) + RangeVertexQuery::encoding(q),
            VertexQueryView::Specific { ids } => u8::encoding(1) + Vec::<Identifier>::encoding(
                ids,
            ),
        }
    }

    open spec fn parse(s: Seq<u8>) -> Result<(VertexQueryView, int), ConversionError> {
        match u8::parse(s) {
            Err(e) => Err(e),
            Ok((tag, n)) => if tag == 0 {
                match parse_variant::<RangeVertexQuery>(s, n) {
                    Ok((q, k)) => Ok((VertexQueryView::Range(q), k)),
                    Err(e) => Err(e),
                }
            } else if tag == 1 {
                match parse_variant::<Vec<Identifier>>(s, n) {
                    Ok((ids, k)) => Ok((VertexQueryView::Specific { ids }, k)),
                    Err(e) => Err(e),
                }
            } else {
                Err(ConversionError::UnknownTag { tag })
            },
        }
    }

    proof fn lemma_parse_encoding(m: VertexQueryView, rest: Seq<u8>) {
        match m {
            VertexQueryView::Range(q) => lemma_parse_variant::<RangeVertexQuery>(0, q, rest),
            VertexQueryView::Specific { ids } => lemma_parse_variant::<Vec<Identifier>>(
                1,
                ids,
                rest,
            ),
        }
    }

    fn write(&self, out: &mut Vec<u8>) {
        match self {
            VertexQuery::Range(q) => {
                let tag: u8 = 0;
                tag.write(out);
                q.write(out);
            },
            VertexQuery::Specific { ids } => {
                let tag: u8 = 1;
                tag.write(out);
                ids.write(out);
            },
        }
        assert(out@ =~= old(out)@ + Self::encoding(self.deep_view()));
    }

    fn read(input: &[u8], pos: usize) -> (r: Result<(VertexQuery, usize), ConversionError>) {
        let (tag, start) = match u8::read(input, pos) {
            Ok(found) => found,
            Err(e) => {
                return Err(e);
            },
        };
        if tag == 0 {
            match read_variant::<RangeVertexQuery>(input, pos, start) {
                Ok((q, end)) => Ok((VertexQuery::Range(q), end)),
                Err(e) => Err(e),
            }
        } else if tag == 1 {
            match read_variant::<Vec<Identifier>>(input, pos, start) {
                Ok((ids, end)) => Ok((VertexQuery::Specific { ids }, end)),
                Err(e) => Err(e),
            }
        } else {
            Err(ConversionError::UnknownTag { tag })
        }
    }
}

/// A selection of edges.
#[derive(Clone, Debug, PartialEq, Eq)]
pub enum EdgeQuery {
    /// The edges with the given keys.
    Specific { keys: Vec<EdgeKey> },
    /// At most `limit` edges on which the vertex `id` is on the `direction`
    /// end, of type `t` if there is one.
    Incident { id: Identifier, direction: EdgeDirection, t: Option<Type>, limit: u32 },
}

/// What an `EdgeQuery` holds.
pub enum EdgeQueryView {
    Specific { keys: Seq<EdgeKeyView> },
    Incident { id: u128, direction: EdgeDirection, t: Option<Seq<char>>, limit: u32 },
}

impl DeepView for EdgeQuery {
    type V = EdgeQueryView;

    open spec fn deep_view(&self) -> EdgeQueryView {
        match self {
            EdgeQuery::Specific { keys } => EdgeQueryView::Specific { keys: keys.deep_view() },
            EdgeQuery::Incident { id, direction, t, limit } => EdgeQueryView::Incident {
                id: id.deep_view(),
                direction: *direction,
                t: t.deep_view(),
                limit: *limit,
            },
        }
    }
}

impl Wire for EdgeQuery {
    open spec fn valid(m: EdgeQueryView) -> bool {
        match m {
            EdgeQueryView::Specific { keys } => Vec::<EdgeKey>::valid(keys),
            EdgeQueryView::Incident { id, direction, t, limit } => <(
                Identifier,
                (EdgeDirection, (Option<Type>, u32)),
            )>::valid((id, (direction, (t, limit)))),
        }
    }

    open spec fn encoding(m: EdgeQueryView) -> Seq<u8> {
        match m {
            EdgeQueryView::Specific { keys } => u8::encoding(0) + Vec::<EdgeKey>::encoding(keys),
            EdgeQueryView::Incident { id, direction, t, limit } => u8::encoding(1) + <(
                Identifier,
                (EdgeDirection, (Option<Type>, u32)),
            )>::encoding((id, (direction, (t, limit)))),
        }
    }

    open spec fn parse(s: Seq<u8>) -> Result<(EdgeQueryView, int), ConversionError> {
        match u8::parse(s) {
            Err(e) => Err(e),
            Ok((tag, n)) => if tag == 0 {
                match parse_variant::<Vec<EdgeKey>>(s, n) {
                    Ok((keys, k)) => Ok((EdgeQueryView::Specific { keys }, k)),
                    Err(e) => Err(e),
                }
            } else if tag == 1 {
                match parse_variant::<(Identifier, (EdgeDirection, (Option<Type>, u32)))>(s, n) {
                    Ok(((id, (direction, (t, limit))), k)) => Ok(
                        (EdgeQueryView::Incident { id, direction, t, limit }, k),
                    ),
                    Err(e) => Err(e),
                }
            } else {
                Err(ConversionError::UnknownTag { tag })
            },
        }
    }

    proof fn lemma_parse_encoding(m: EdgeQueryView, rest: Seq<u8>) {
        match m {
            EdgeQueryView::Specific { keys } => lemma_parse_variant::<Vec<EdgeKey>>(0, keys, rest),
            EdgeQueryView::Incident { id, direction, t, limit } => lemma_parse_variant::<
                (Identifier, (EdgeDirection, (Option<Type>, u32))),
            >(1, (id, (direction, (t, limit))), rest),
        }
    }

    fn write(&self, out: &mut Vec<u8>) {
        match self {
            EdgeQuery::Specific { keys } => {
                let tag: u8 = 0;
                tag.write(out);
                keys.write(out);
            },
            EdgeQuery::Incident { id, direction, t, limit } => {
                let tag: u8 = 1;
                tag.write(out);
                id.write(out);
                direction.write(out);
                t.write(out);
                limit.write(out);
            },
        }
        assert(out@ =~= old(out)@ + Self::encoding(self.deep_view()));
    }

    fn read(input: &[u8], pos: usize) -> (r: Result<(EdgeQuery, usize), ConversionError>) {
        let (tag, start) = match u8::read(input, pos) {
            Ok(found) => found,
            Err(e) => {
                return Err(e);
            },
        };
        if tag == 0 {
            match read_variant::<Vec<EdgeKey>>(input, pos, start) {
                Ok((keys, end)) => Ok((EdgeQuery::Specific { keys }, end)),
                Err(e) => Err(e),
            }
        } else if tag == 1 {
            match read_variant::<(Identifier, (EdgeDirection, (Option<Type>, u32)))>(
                input,
                pos,
                start,
            ) {
                Ok(((id, (direction, (t, limit))), end)) => Ok(
                    (EdgeQuery::Incident { id, direction, t, limit }, end),
                ),
                Err(e) => Err(e),
            }
        } else {
            Err(ConversionError::UnknownTag { tag })
        }
    }
}

/// A selection of vertices or of edges.
#[derive(Clone, Debug, PartialEq, Eq)]
pub enum Query {
    Vertex(VertexQuery),
    Edge(EdgeQuery),
}

/// What a `Query` holds.
pub enum QueryView {
    Vertex(VertexQueryView),
    Edge(EdgeQueryView),
}

impl DeepView for Query {
    type V = QueryView;

    open spec fn deep_view(&self) -> QueryView {
        match self {
            Query::Vertex(q) => QueryView::Vertex(q.deep_view()),
            Query::Edge(q) => QueryView::Edge(q.deep_view()),
        }
    }
}

impl Wire for Query {
    open spec fn valid(m: QueryView) -> bool {
        match m {
            QueryView::Vertex(q) => VertexQuery::valid(q),
            QueryView::Edge(q) => EdgeQuery::valid(q),
        }
    }

    open spec fn encoding(m: QueryView) -> Seq<u8> {
        match m {
            QueryView::Vertex(q) => u8::encoding(0) + VertexQuery::encoding(q),
            QueryView::Edge(q) => u8::encoding(1) + EdgeQuery::encoding(q),
        }
    }

    open spec fn parse(s: Seq<u8>) -> Result<(QueryView, int), ConversionError> {
        match u8::parse(s) {
            Err(e) => Err(e),
            Ok((tag, n)) => if tag == 0 {
                match parse_variant::<VertexQuery>(s, n) {
                    Ok((q, k)) => Ok((QueryView::Vertex(q), k)),
                    Err(e) => Err(e),
                }
            } else if tag == 1 {
                match parse_variant::<EdgeQuery>(s, n) {
                    Ok((q, k)) => Ok((QueryView::Edge(q), k)),
                    Err(e) => Err(e),
                }
            } else {
                Err(ConversionError::UnknownTag { tag })
            },
        }
    }

    proof fn lemma_parse_encoding(m: QueryView, rest: Seq<u8>) {
        match m {
            QueryView::Vertex(q) => lemma_parse_variant::<VertexQuery>(0, q, rest),
            QueryView::Edge(q) => lemma_parse_variant::<EdgeQuery>(1, q, rest),
        }
    }

    fn write(&self, out: &mut Vec<u8>) {
        match self {
            Query::Vertex(q) => {
                let tag: u8 = 0;
                tag.write(out);
                q.write(out);
            },
            Query::Edge(q) => {
                let tag: u8 = 1;
                tag.write(out);
                q.write(out);
            },
        }
        assert(out@ =~= old(out)@ + Self::encoding(self.deep_view()));
    }

    fn read(input: &[u8], pos: usize) -> (r: Result<(Query, usize), ConversionError>) {
        let (tag, start) = match u8::read(input, pos) {
            Ok(found) => found,
            Err(e) => {
                return Err(e);
            },
        };
        if tag == 0 {
            match read_variant::<VertexQuery>(input, pos, start) {
                Ok((q, end)) => Ok((Query::Vertex(q), end)),
                Err(e) => Err(e),
            }
        } else if tag == 1 {
            match read_variant::<EdgeQuery>(input, pos, start) {
                Ok((q, end)) => Ok((Query::Edge(q), end)),
                Err(e) => Err(e),
            }
        } else {
            Err(ConversionError::UnknownTag { tag })
        }
    }
}

} // verus!
