//! The connection-per-call client: how each graph operation is phrased as a
//! request, how its answer is read, and when a connection attempt is repeated.
//!
//! A transaction opens a fresh connection for every operation. The connection
//! is probed for readiness first; the decisions of that handshake are taken by
//! [`Connector`], and the caller carries them out.

use crate::composites::put_text;
use crate::entities::{Edge, EdgeKey, EdgeMetadata, Vertex, VertexMetadata};
use crate::errors::{ClientError, ClientErrorView, ConversionError};
use crate::models::{Identifier, Json, Type};
use crate::queries::{EdgeDirection, EdgeQuery, VertexQuery};
use crate::reply::{answer, answer_spec, result_matches};
use crate::wire::{be_value, Wire};
use vstd::prelude::*;

verus! {

/// The most connection attempts that one operation makes.
pub const MAX_ATTEMPTS: u32 = 5;

/// The seconds to wait between two connection attempts.
pub const RETRY_DELAY_SECS: u64 = 1;

/// How one connection attempt ended.
#[derive(Clone, Copy, Debug, PartialEq, Eq, Structural)]
pub enum ProbeOutcome {
    /// The connection could not be established.
    ConnectFailed,
    /// The connection stood, but the readiness probe got no answer.
    ProbeFailed,
    /// The server answered that it is not ready.
    NotReady,
    /// The server answered that it is ready.
    Ready,
}

/// Where a connection handshake stands.
#[derive(Clone, Copy, Debug, PartialEq, Eq, Structural)]
pub enum Phase {
    /// No attempt has found the server ready, and attempts are left.
    Trying,
    /// An attempt found the server ready.
    Connected,
    /// Every attempt was used up.
    Exhausted,
}

/// What the caller does next.
#[derive(Clone, Copy, Debug, PartialEq, Eq, Structural)]
pub enum Step {
    /// Wait `delay_secs`, then connect and probe again.
    Retry { delay_secs: u64 },
    /// Obtain the transaction handle on this connection and run the operation.
    Run,
    /// Wait `delay_secs`, then stop for good: the server cannot be reached,
    /// and no error is returned for it.
    Abort { delay_secs: u64 },
}

/// The state of a handshake: the attempts made and the phase.
pub struct ConnectorView {
    pub attempts: u32,
    pub phase: Phase,
}

impl ConnectorView {
    /// The state before the first attempt.
    pub open spec fn initial() -> ConnectorView {
        ConnectorView { attempts: 0, phase: Phase::Trying }
    }

    /// Whether this state can be reached.
    pub open spec fn wf(self) -> bool {
        match self.phase {
            Phase::Trying => self.attempts < MAX_ATTEMPTS,
            Phase::Connected => 1 <= self.attempts <= MAX_ATTEMPTS,
            Phase::Exhausted => self.attempts == MAX_ATTEMPTS,
        }
    }

    /// The state after an attempt ended with `outcome`. An outcome reported
    /// after the handshake is over changes nothing.
    pub open spec fn after(self, outcome: ProbeOutcome) -> ConnectorView {
        if self.phase != Phase::Trying {
            self
        } else if outcome == ProbeOutcome::Ready {
            ConnectorView { attempts: (self.attempts + 1) as u32, phase: Phase::Connected }
        } else if self.attempts + 1 < MAX_ATTEMPTS {
            ConnectorView { attempts: (self.attempts + 1) as u32, phase: Phase::Trying }
        } else {
            ConnectorView { attempts: (self.attempts + 1) as u32, phase: Phase::Exhausted }
        }
    }

    /// What the caller does in this state.
    pub open spec fn step(self) -> Step {
        match self.phase {
            Phase::Trying => Step::Retry { delay_secs: RETRY_DELAY_SECS },
            Phase::Connected => Step::Run,
            Phase::Exhausted => Step::Abort { delay_secs: RETRY_DELAY_SECS },
        }
    }

    /// The state after the attempts ended with `outcomes`, in that order.
    pub open spec fn run(self, outcomes: Seq<ProbeOutcome>) -> ConnectorView
        decreases outcomes.len(),
    {
        if outcomes.len() == 0 {
            self
        } else {
            self.after(outcomes[0]).run(outcomes.skip(1))
        }
    }
}

/// The handshake of one operation.
#[derive(Debug)]
pub struct Connector {
    attempts: u32,
    phase: Phase,
}

impl View for Connector {
    type V = ConnectorView;

    closed spec fn view(&self) -> ConnectorView {
        ConnectorView { attempts: self.attempts, phase: self.phase }
    }
}

impl Connector {
    #[verifier::type_invariant]
    spec fn well_formed(self) -> bool {
        self@.wf()
    }

    /// A handshake of which no attempt has been made.
    pub fn new() -> (c: Connector)
        ensures
            c@ == ConnectorView::initial(),
    {
        Connector { attempts: 0, phase: Phase::Trying }
    }

    /// The attempts made so far, never more than `MAX_ATTEMPTS`.
    pub fn attempts(&self) -> (n: u32)
        ensures
            n == self@.attempts,
            n <= MAX_ATTEMPTS,
            self@.wf(),
    {
        proof {
            use_type_invariant(self);
        }
        self.attempts
    }

    /// The phase of the handshake.
    pub fn phase(&self) -> (phase: Phase)
        ensures
            phase == self@.phase,
    {
        self.phase
    }

    /// Records how an attempt ended and says what to do next.
    pub fn record(&mut self, outcome: ProbeOutcome) -> (step: Step)
        ensures
            final(self)@ == old(self)@.after(outcome),
            step == final(self)@.step(),
            final(self)@.wf(),
    {
        proof {
            use_type_invariant(&*self);
        }
        match self.phase {
            Phase::Trying => {
                let made: u32 = self.attempts + 1;
                match outcome {
                    ProbeOutcome::Ready => {
                        *self = Connector { attempts: made, phase: Phase::Connected };
                        Step::Run
                    },
                    _ => {
                        if made < MAX_ATTEMPTS {
                            *self = Connector { attempts: made, phase: Phase::Trying };
                            Step::Retry { delay_secs: RETRY_DELAY_SECS }
                        } else {
                            *self = Connector { attempts: made, phase: Phase::Exhausted };
                            Step::Abort { delay_secs: RETRY_DELAY_SECS }
                        }
                    },
                }
            },
            Phase::Connected => Step::Run,
            Phase::Exhausted => Step::Abort { delay_secs: RETRY_DELAY_SECS },
        }
    }
}

/// How an attempt ended whose connection stood and whose readiness probe was
/// answered with `reply`: ready or not as the server said, and a failed probe
/// where no answer could be read.
pub fn probe_outcome(reply: &Result<bool, ClientError>) -> (outcome: ProbeOutcome)
    ensures
        outcome == match reply {
            Ok(true) => ProbeOutcome::Ready,
            Ok(false) => ProbeOutcome::NotReady,
            Err(_) => ProbeOutcome::ProbeFailed,
        },
{
    match reply {
        Ok(true) => ProbeOutcome::Ready,
        Ok(false) => ProbeOutcome::NotReady,
        Err(_) => ProbeOutcome::ProbeFailed,
    }
}

/// Every state that a handshake reaches is well formed: no handshake makes
/// more than `MAX_ATTEMPTS` attempts.
pub proof fn lemma_attempts_bounded(start: ConnectorView, outcomes: Seq<ProbeOutcome>)
    requires
        start.wf(),
    ensures
        start.run(outcomes).wf(),
        start.run(outcomes).attempts <= MAX_ATTEMPTS,
        start.attempts <= start.run(outcomes).attempts,
    decreases outcomes.len(),
{
    if outcomes.len() > 0 {
        lemma_attempts_bounded(start.after(outcomes[0]), outcomes.skip(1));
    }
}

/// A handshake that is over stays as it is, whatever is reported to it.
pub proof fn lemma_finished_stays(start: ConnectorView, outcomes: Seq<ProbeOutcome>)
    requires
        start.phase != Phase::Trying,
    ensures
        start.run(outcomes) == start,
    decreases outcomes.len(),
{
    if outcomes.len() > 0 {
        lemma_finished_stays(start, outcomes.skip(1));
    }
}

/// A server that is first ready on attempt `k`, with `k` at most
/// `MAX_ATTEMPTS`, is connected to after exactly `k` attempts, and nothing that
/// follows makes another attempt.
pub proof fn lemma_ready_on_attempt(outcomes: Seq<ProbeOutcome>, k: int)
    requires
        1 <= k <= MAX_ATTEMPTS,
        k <= outcomes.len(),
        outcomes[k - 1] == ProbeOutcome::Ready,
        forall|i: int| 0 <= i < k - 1 ==> outcomes[i] != ProbeOutcome::Ready,
    ensures
        ConnectorView::initial().run(outcomes) == (ConnectorView {
            attempts: k as u32,
            phase: Phase::Connected,
        }),
        ConnectorView::initial().run(outcomes).step() == Step::Run,
{
    lemma_ready_from(ConnectorView::initial(), outcomes, k);
}

proof fn lemma_ready_from(start: ConnectorView, outcomes: Seq<ProbeOutcome>, k: int)
    requires
        start.phase == Phase::Trying,
        1 <= k,
        start.attempts + k <= MAX_ATTEMPTS,
        k <= outcomes.len(),
        outcomes[k - 1] == ProbeOutcome::Ready,
        forall|i: int| 0 <= i < k - 1 ==> outcomes[i] != ProbeOutcome::Ready,
    ensures
        start.run(outcomes) == (ConnectorView {
            attempts: (start.attempts + k) as u32,
            phase: Phase::Connected,
        }),
    decreases k,
{
    let rest = outcomes.skip(1);
    if k == 1 {
        lemma_finished_stays(start.after(outcomes[0]), rest);
    } else {
        assert(outcomes[0] != ProbeOutcome::Ready);
        assert(rest[k - 2] == outcomes[k - 1]);
        assert forall|i: int| 0 <= i < k - 2 implies rest[i] != ProbeOutcome::Ready by {
            assert(rest[i] == outcomes[i + 1]);
        }
        lemma_ready_from(start.after(outcomes[0]), rest, k - 1);
    }
}

/// A server that is not ready on any of the first `MAX_ATTEMPTS` attempts is
/// given up on after exactly that many, each but the last followed by a retry
/// after `RETRY_DELAY_SECS`.
pub proof fn lemma_exhausted(outcomes: Seq<ProbeOutcome>)
    requires
        outcomes.len() >= MAX_ATTEMPTS,
        forall|i: int| 0 <= i < MAX_ATTEMPTS ==> outcomes[i] != ProbeOutcome::Ready,
    ensures
        ConnectorView::initial().run(outcomes) == (ConnectorView {
            attempts: MAX_ATTEMPTS,
            phase: Phase::Exhausted,
        }),
        forall|n: int|
            1 <= n < MAX_ATTEMPTS ==> #[trigger] ConnectorView::initial().run(
                outcomes.take(n),
            ).step() == (Step::Retry { delay_secs: RETRY_DELAY_SECS }),
{
    lemma_unready_from(ConnectorView::initial(), outcomes, MAX_ATTEMPTS as int);
    assert(outcomes.take(MAX_ATTEMPTS as int).len() == MAX_ATTEMPTS);
    lemma_run_split(ConnectorView::initial(), outcomes, MAX_ATTEMPTS as int);
    lemma_finished_stays(
        ConnectorView::initial().run(outcomes.take(MAX_ATTEMPTS as int)),
        outcomes.skip(MAX_ATTEMPTS as int),
    );
    assert forall|n: int| 1 <= n < MAX_ATTEMPTS implies #[trigger] ConnectorView::initial().run(
        outcomes.take(n),
    ).step() == (Step::Retry { delay_secs: RETRY_DELAY_SECS }) by {
        lemma_unready_from(ConnectorView::initial(), outcomes, n);
    }
}

/// `n` attempts that do not find the server ready leave a handshake with `n`
/// attempts more: still trying if attempts are left, exhausted if not.
proof fn lemma_unready_from(start: ConnectorView, outcomes: Seq<ProbeOutcome>, n: int)
    requires
        start.phase == Phase::Trying,
        start.wf(),
        0 <= n <= outcomes.len(),
        start.attempts + n <= MAX_ATTEMPTS,
        forall|i: int| 0 <= i < n ==> outcomes[i] != ProbeOutcome::Ready,
    ensures
        start.run(outcomes.take(n)) == (ConnectorView {
            attempts: (start.attempts + n) as u32,
            phase: if start.attempts + n < MAX_ATTEMPTS {
                Phase::Trying
            } else {
                Phase::Exhausted
            },
        }),
    decreases n,
{
    let prefix = outcomes.take(n);
    if n == 0 {
        assert(prefix.len() == 0);
    } else {
        let rest = outcomes.skip(1);
        let next = start.after(outcomes[0]);
        assert(prefix[0] == outcomes[0]);
        assert(outcomes[0] != ProbeOutcome::Ready);
        assert(prefix.skip(1) =~= rest.take(n - 1));
        assert(start.run(prefix) == next.run(rest.take(n - 1)));
        if n > 1 {
            assert forall|i: int| 0 <= i < n - 1 implies rest[i] != ProbeOutcome::Ready by {
                assert(rest[i] == outcomes[i + 1]);
            }
            lemma_unready_from(next, rest, n - 1);
        } else {
            assert(rest.take(0).len() == 0);
            assert(next.run(rest.take(0)) == next);
        }
    }
}

/// Reporting outcomes in two parts is reporting them in one.
proof fn lemma_run_split(start: ConnectorView, outcomes: Seq<ProbeOutcome>, n: int)
    requires
        0 <= n <= outcomes.len(),
    ensures
        start.run(outcomes) == start.run(outcomes.take(n)).run(outcomes.skip(n)),
    decreases n,
{
    if n == 0 {
        assert(outcomes.take(0).len() == 0);
        assert(outcomes.skip(0) =~= outcomes);
    } else {
        let prefix = outcomes.take(n);
        assert(prefix[0] == outcomes[0]);
        assert(prefix.skip(1) =~= outcomes.skip(1).take(n - 1));
        assert(outcomes.skip(1).skip(n - 1) =~= outcomes.skip(n));
        lemma_run_split(start.after(outcomes[0]), outcomes.skip(1), n - 1);
    }
}

/// The operations of a transaction, and the readiness probe.
#[derive(Clone, Copy, Debug, PartialEq, Eq, Structural)]
pub enum Method {
    Ping,
    CreateVertex,
    CreateVertexFromType,
    GetVertices,
    DeleteVertices,
    GetVertexCount,
    CreateEdge,
    GetEdges,
    DeleteEdges,
    GetEdgeCount,
    GetVertexMetadata,
    SetVertexMetadata,
    DeleteVertexMetadata,
    GetEdgeMetadata,
    SetEdgeMetadata,
    DeleteEdgeMetadata,
}

impl Method {
    /// The tag that names this operation on the wire.
    pub open spec fn tag(self) -> u8 {
        match self {
            Method::Ping => 0,
            Method::CreateVertex => 1,
            Method::CreateVertexFromType => 2,
            Method::GetVertices => 3,
            Method::DeleteVertices => 4,
            Method::GetVertexCount => 5,
            Method::CreateEdge => 6,
            Method::GetEdges => 7,
            Method::DeleteEdges => 8,
            Method::GetEdgeCount => 9,
            Method::GetVertexMetadata => 10,
            Method::SetVertexMetadata => 11,
            Method::DeleteVertexMetadata => 12,
            Method::GetEdgeMetadata => 13,
            Method::SetEdgeMetadata => 14,
            Method::DeleteEdgeMetadata => 15,
        }
    }

    /// The tag that names this operation on the wire.
    pub fn code(&self) -> (tag: u8)
        ensures
            tag == self.tag(),
    {
        match self {
            Method::Ping => 0,
            Method::CreateVertex => 1,
            Method::CreateVertexFromType => 2,
            Method::GetVertices => 3,
            Method::DeleteVertices => 4,
            Method::GetVertexCount => 5,
            Method::CreateEdge => 6,
            Method::GetEdges => 7,
            Method::DeleteEdges => 8,
            Method::GetEdgeCount => 9,
            Method::GetVertexMetadata => 10,
            Method::SetVertexMetadata => 11,
            Method::DeleteVertexMetadata => 12,
            Method::GetEdgeMetadata => 13,
            Method::SetEdgeMetadata => 14,
            Method::DeleteEdgeMetadata => 15,
        }
    }
}

/// A request: the tag of the operation, then its arguments.
pub open spec fn request(method: Method, arguments: Seq<u8>) -> Seq<u8> {
    u8::encoding(method.tag()) + arguments
}

/// A request for `method` that has no arguments yet.
fn begin(method: Method) -> (out: Vec<u8>)
    ensures
        out@ == request(method, Seq::empty()),
{
    let mut out: Vec<u8> = Vec::new();
    method.code().write(&mut out);
    assert(out@ =~= request(method, Seq::empty()));
    out
}

/// What the answer `s` to the creation of a vertex from a type returns: the
/// identifier that the sixteen bytes of a success spell, and a conversion error
/// for any other number of bytes.
pub open spec fn identifier_answer_spec(s: Seq<u8>) -> Result<u128, ClientErrorView> {
    match answer_spec::<Vec<u8>>(s) {
        Ok(bytes) => if bytes.len() == 16 {
            Ok(be_value(bytes) as u128)
        } else {
            Err(
                ClientErrorView::Conversion {
                    inner: ConversionError::InvalidIdentifierLength { len: bytes.len() as usize },
                },
            )
        },
        Err(e) => Err(e),
    }
}

/// A datastore behind a server on this machine.
#[derive(Clone, Copy, Debug, PartialEq, Eq)]
pub struct ClientDatastore {
    port: u16,
}

impl ClientDatastore {
    /// The port that the server listens on.
    pub closed spec fn spec_port(&self) -> u16 {
        self.port
    }

    /// A datastore whose server listens on `port`.
    pub fn new(port: u16) -> (datastore: Self)
        ensures
            datastore.spec_port() == port,
    {
        Self { port }
    }

    /// The port that the server listens on.
    pub fn port(&self) -> (port: u16)
        ensures
            port == self.spec_port(),
    {
        self.port
    }

    /// A transaction against the same server. Nothing is connected yet: the
    /// first operation connects.
    pub fn transaction(&self) -> (r: Result<ClientTransaction, ClientError>)
        ensures
            r matches Ok(transaction) && transaction.spec_port() == self.spec_port(),
    {
        Ok(ClientTransaction::new(self.port))
    }
}

/// A transaction against a server on this machine. Each method phrases one
/// operation as the request to send; the method of the same name that ends in
/// `_reply` reads the answer.
#[derive(Clone, Copy, Debug, PartialEq, Eq)]
pub struct ClientTransaction {
    port: u16,
}

impl ClientTransaction {
    /// The port that the server listens on.
    pub closed spec fn spec_port(&self) -> u16 {
        self.port
    }

    /// A transaction whose server listens on `port`.
    pub fn new(port: u16) -> (transaction: Self)
        ensures
            transaction.spec_port() == port,
    {
        ClientTransaction { port }
    }

    /// The port that the server listens on.
    pub fn port(&self) -> (port: u16)
        ensures
            port == self.spec_port(),
    {
        self.port
    }

    /// The handshake to go through before an operation.
    pub fn connector(&self) -> (c: Connector)
        ensures
            c@ == ConnectorView::initial(),
    {
        Connector::new()
    }

    /// The readiness probe.
    pub fn ping(&self) -> (out: Vec<u8>)
        ensures
            out@ == request(Method::Ping, Seq::empty()),
    {
        begin(Method::Ping)
    }

    /// Whether the server said it is ready.
    pub fn ping_reply(&self, reply: &[u8]) -> (r: Result<bool, ClientError>)
        ensures
            result_matches(r, answer_spec::<bool>(reply@)),
    {
        answer::<bool>(reply)
    }

    /// Creates the vertex `v`.
    pub fn create_vertex(&self, v: &Vertex) -> (out: Vec<u8>)
        ensures
            out@ == request(Method::CreateVertex, Vertex::encoding(v.deep_view())),
    {
        let mut out = begin(Method::CreateVertex);
        v.write(&mut out);
        assert(out@ =~= request(Method::CreateVertex, Vertex::encoding(v.deep_view())));
        out
    }

    /// Whether the vertex was created: not if its identifier was taken.
    pub fn create_vertex_reply(&self, reply: &[u8]) -> (r: Result<bool, ClientError>)
        ensures
            result_matches(r, answer_spec::<bool>(reply@)),
    {
        answer::<bool>(reply)
    }

    /// Creates a vertex of type `t` under an identifier that the server
    /// chooses.
    pub fn create_vertex_from_type(&self, t: Type) -> (out: Vec<u8>)
        ensures
            out@ == request(Method::CreateVertexFromType, Type::encoding(t.deep_view())),
    {
        let mut out = begin(Method::CreateVertexFromType);
        t.write(&mut out);
        assert(out@ =~= request(Method::CreateVertexFromType, Type::encoding(t.deep_view())));
        out
    }

    /// The identifier that the server chose.
    pub fn create_vertex_from_type_reply(&self, reply: &[u8]) -> (r: Result<
        Identifier,
        ClientError,
    >)
        ensures
            result_matches(r, identifier_answer_spec(reply@)),
    {
        match answer::<Vec<u8>>(reply) {
            Ok(bytes) => {
                assert(bytes.deep_view() =~= bytes@);
                match Identifier::from_slice(bytes.as_slice()) {
                    Ok(id) => Ok(id),
                    Err(e) => Err(ClientError::Conversion { inner: e }),
                }
            },
            Err(e) => Err(e),
        }
    }

    /// Gets the vertices that `q` selects.
    pub fn get_vertices(&self, q: &VertexQuery) -> (out: Vec<u8>)
        ensures
            out@ == request(Method::GetVertices, VertexQuery::encoding(q.deep_view())),
    {
        let mut out = begin(Method::GetVertices);
        q.write(&mut out);
        assert(out@ =~= request(Method::GetVertices, VertexQuery::encoding(q.deep_view())));
        out
    }

    /// The vertices, in the order the server gave them.
    pub fn get_vertices_reply(&self, reply: &[u8]) -> (r: Result<Vec<Vertex>, ClientError>)
        ensures
            result_matches(r, answer_spec::<Vec<Vertex>>(reply@)),
    {
        answer::<Vec<Vertex>>(reply)
    }

    /// Deletes the vertices that `q` selects.
    pub fn delete_vertices(&self, q: &VertexQuery) -> (out: Vec<u8>)
        ensures
            out@ == request(Method::DeleteVertices, VertexQuery::encoding(q.deep_view())),
    {
        let mut out = begin(Method::DeleteVertices);
        q.write(&mut out);
        assert(out@ =~= request(Method::DeleteVertices, VertexQuery::encoding(q.deep_view())));
        out
    }

    /// Whether the vertices were deleted.
    pub fn delete_vertices_reply(&self, reply: &[u8]) -> (r: Result<(), ClientError>)
        ensures
            result_matches(r, answer_spec::<()>(reply@)),
    {
        answer::<()>(reply)
    }

    /// Counts the vertices.
    pub fn get_vertex_count(&self) -> (out: Vec<u8>)
        ensures
            out@ == request(Method::GetVertexCount, Seq::empty()),
    {
        begin(Method::GetVertexCount)
    }

    /// The number of vertices.
    pub fn get_vertex_count_reply(&self, reply: &[u8]) -> (r: Result<u64, ClientError>)
        ensures
            result_matches(r, answer_spec::<u64>(reply@)),
    {
        answer::<u64>(reply)
    }

    /// Creates the edge `e`, or refreshes it if it exists.
    pub fn create_edge(&self, e: &EdgeKey) -> (out: Vec<u8>)
        ensures
            out@ == request(Method::CreateEdge, EdgeKey::encoding(e.deep_view())),
    {
        let mut out = begin(Method::CreateEdge);
        e.write(&mut out);
        assert(out@ =~= request(Method::CreateEdge, EdgeKey::encoding(e.deep_view())));
        out
    }

    /// Whether the edge was created or refreshed: not if one of its ends is
    /// missing.
    pub fn create_edge_reply(&self, reply: &[u8]) -> (r: Result<bool, ClientError>)
        ensures
            result_matches(r, answer_spec::<bool>(reply@)),
    {
        answer::<bool>(reply)
    }

    /// Gets the edges that `q` selects.
    pub fn get_edges(&self, q: &EdgeQuery) -> (out: Vec<u8>)
        ensures
            out@ == request(Method::GetEdges, EdgeQuery::encoding(q.deep_view())),
    {
        let mut out = begin(Method::GetEdges);
        q.write(&mut out);
        assert(out@ =~= request(Method::GetEdges, EdgeQuery::encoding(q.deep_view())));
        out
    }

    /// The edges, in the order the server gave them.
    pub fn get_edges_reply(&self, reply: &[u8]) -> (r: Result<Vec<Edge>, ClientError>)
        ensures
            result_matches(r, answer_spec::<Vec<Edge>>(reply@)),
    {
        answer::<Vec<Edge>>(reply)
    }

    /// Deletes the edges that `q` selects.
    pub fn delete_edges(&self, q: &EdgeQuery) -> (out: Vec<u8>)
        ensures
            out@ == request(Method::DeleteEdges, EdgeQuery::encoding(q.deep_view())),
    {
        let mut out = begin(Method::DeleteEdges);
        q.write(&mut out);
        assert(out@ =~= request(Method::DeleteEdges, EdgeQuery::encoding(q.deep_view())));
        out
    }

    /// Whether the edges were deleted.
    pub fn delete_edges_reply(&self, reply: &[u8]) -> (r: Result<(), ClientError>)
        ensures
            result_matches(r, answer_spec::<()>(reply@)),
    {
        answer::<()>(reply)
    }

    /// Counts the edges on which the vertex `id` is on the `direction` end, of
    /// type `type_filter` if there is one.
    pub fn get_edge_count(
        &self,
        id: Identifier,
        type_filter: Option<&Type>,
        direction: EdgeDirection,
    ) -> (out: Vec<u8>)
        ensures
            out@ == request(
                Method::GetEdgeCount,
                Identifier::encoding(id.deep_view()) + Option::<Type>::encoding(
                    type_filter.deep_view(),
                ) + EdgeDirection::encoding(direction),
            ),
    {
        let mut out = begin(Method::GetEdgeCount);
        id.write(&mut out);
        match type_filter {
            Some(t) => {
                let tag: u8 = 1;
                tag.write(&mut out);
                t.write(&mut out);
            },
            None => {
                let tag: u8 = 0;
                tag.write(&mut out);
            },
        }
        direction.write(&mut out);
        assert(out@ =~= request(
            Method::GetEdgeCount,
            Identifier::encoding(id.deep_view()) + Option::<Type>::encoding(
                type_filter.deep_view(),
            ) + EdgeDirection::encoding(direction),
        ));
        out
    }

    /// The number of edges.
    pub fn get_edge_count_reply(&self, reply: &[u8]) -> (r: Result<u64, ClientError>)
        ensures
            result_matches(r, answer_spec::<u64>(reply@)),
    {
        answer::<u64>(reply)
    }

    /// Gets the value under `name` of each vertex that `q` selects.
    pub fn get_vertex_metadata(&self, q: &VertexQuery, name: &str) -> (out: Vec<u8>)
        ensures
            out@ == request(
                Method::GetVertexMetadata,
                VertexQuery::encoding(q.deep_view()) + String::encoding(name@),
            ),
    {
        let mut out = begin(Method::GetVertexMetadata);
        q.write(&mut out);
        put_text(name, &mut out);
        assert(out@ =~= request(
            Method::GetVertexMetadata,
            VertexQuery::encoding(q.deep_view()) + String::encoding(name@),
        ));
        out
    }

    /// The values, each with the vertex that holds it.
    pub fn get_vertex_metadata_reply(&self, reply: &[u8]) -> (r: Result<
        Vec<VertexMetadata>,
        ClientError,
    >)
        ensures
            result_matches(r, answer_spec::<Vec<VertexMetadata>>(reply@)),
    {
        answer::<Vec<VertexMetadata>>(reply)
    }

    /// Sets the value under `name` of each vertex that `q` selects to `value`.
    pub fn set_vertex_metadata(&self, q: &VertexQuery, name: &str, value: &Json) -> (out: Vec<u8>)
        ensures
            out@ == request(
                Method::SetVertexMetadata,
                VertexQuery::encoding(q.deep_view()) + String::encoding(name@) + Json::encoding(
                    value.deep_view(),
                ),
            ),
    {
        let mut out = begin(Method::SetVertexMetadata);
        q.write(&mut out);
        put_text(name, &mut out);
        value.write(&mut out);
        assert(out@ =~= request(
            Method::SetVertexMetadata,
            VertexQuery::encoding(q.deep_view()) + String::encoding(name@) + Json::encoding(
                value.deep_view(),
            ),
        ));
        out
    }

    /// Whether the values were set.
    pub fn set_vertex_metadata_reply(&self, reply: &[u8]) -> (r: Result<(), ClientError>)
        ensures
            result_matches(r, answer_spec::<()>(reply@)),
    {
        answer::<()>(reply)
    }

    /// Deletes the value under `name` of each vertex that `q` selects.
    pub fn delete_vertex_metadata(&self, q: &VertexQuery, name: &str) -> (out: Vec<u8>)
        ensures
            out@ == request(
                Method::DeleteVertexMetadata,
                VertexQuery::encoding(q.deep_view()) + String::encoding(name@),
            ),
    {
        let mut out = begin(Method::DeleteVertexMetadata);
        q.write(&mut out);
        put_text(name, &mut out);
        assert(out@ =~= request(
            Method::DeleteVertexMetadata,
            VertexQuery::encoding(q.deep_view()) + String::encoding(name@),
        ));
        out
    }

    /// Whether the values were deleted.
    pub fn delete_vertex_metadata_reply(&self, reply: &[u8]) -> (r: Result<(), ClientError>)
        ensures
            result_matches(r, answer_spec::<()>(reply@)),
    {
        answer::<()>(reply)
    }

    /// Gets the value under `name` of each edge that `q` selects.
    pub fn get_edge_metadata(&self, q: &EdgeQuery, name: &str) -> (out: Vec<u8>)
        ensures
            out@ == request(
                Method::GetEdgeMetadata,
                EdgeQuery::encoding(q.deep_view()) + String::encoding(name@),
            ),
    {
        let mut out = begin(Method::GetEdgeMetadata);
        q.write(&mut out);
        put_text(name, &mut out);
        assert(out@ =~= request(
            Method::GetEdgeMetadata,
            EdgeQuery::encoding(q.deep_view()) + String::encoding(name@),
        ));
        out
    }

    /// The values, each with the edge that holds it.
    pub fn get_edge_metadata_reply(&self, reply: &[u8]) -> (r: Result<
        Vec<EdgeMetadata>,
        ClientError,
    >)
        ensures
            result_matches(r, answer_spec::<Vec<EdgeMetadata>>(reply@)),
    {
        answer::<Vec<EdgeMetadata>>(reply)
    }

    /// Sets the value under `name` of each edge that `q` selects to `value`.
    pub fn set_edge_metadata(&self, q: &EdgeQuery, name: &str, value: &Json) -> (out: Vec<u8>)
        ensures
            out@ == request(
                Method::SetEdgeMetadata,
                EdgeQuery::encoding(q.deep_view()) + String::encoding(name@) + Json::encoding(
                    value.deep_view(),
                ),
            ),
    {
        let mut out = begin(Method::SetEdgeMetadata);
        q.write(&mut out);
        put_text(name, &mut out);
        value.write(&mut out);
        assert(out@ =~= request(
            Method::SetEdgeMetadata,
            EdgeQuery::encoding(q.deep_view()) + String::encoding(name@) + Json::encoding(
                value.deep_view(),
            ),
        ));
        out
    }

    /// Whether the values were set.
    pub fn set_edge_metadata_reply(&self, reply: &[u8]) -> (r: Result<(), ClientError>)
        ensures
            result_matches(r, answer_spec::<()>(reply@)),
    {
        answer::<()>(reply)
    }

    /// Deletes the value under `name` of each edge that `q` selects.
    pub fn delete_edge_metadata(&self, q: &EdgeQuery, name: &str) -> (out: Vec<u8>)
        ensures
            out@ == request(
                Method::DeleteEdgeMetadata,
                EdgeQuery::encoding(q.deep_view()) + String::encoding(name@),
            ),
    {
        let mut out = begin(Method::DeleteEdgeMetadata);
        q.write(&mut out);
        put_text(name, &mut out);
        assert(out@ =~= request(
            Method::DeleteEdgeMetadata,
            EdgeQuery::encoding(q.deep_view()) + String::encoding(name@),
        ));
        out
    }

    /// Whether the values were deleted.
    pub fn delete_edge_metadata_reply(&self, reply: &[u8]) -> (r: Result<(), ClientError>)
        ensures
            result_matches(r, answer_spec::<()>(reply@)),
    {
        answer::<()>(reply)
    }
}

} // verus!
