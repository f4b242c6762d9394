//! The streaming client: how each operation is phrased as a message for one
//! persistent channel, how its answer is read, how a stream of answers is
//! gathered, and how a bulk load is fed to the channel.
//!
//! On this transport a failure status travels beside the message, not in it:
//! an answer is either the bytes of a message or a status.

use crate::composites::put_text;
use crate::entities::{EdgeKey, Vertex};
use crate::errors::{ClientError, ClientErrorView, ConversionError, Status};
use crate::items::{BulkInsertItem, BulkInsertItemView, QueryOutputValue, QueryOutputValueView};
use crate::models::{Identifier, Json, Type};
use crate::queries::Query;
use crate::reply::{result_matches, StatusView};
use crate::wire::{be_value, lemma_round_trip, marshal, unmarshal, unmarshal_spec, Wire};
use vstd::prelude::*;

verus! {

/// The number of items of a bulk load that may wait between the task that
/// marshals them and the call that streams them.
pub const CHANNEL_CAPACITY: usize = 100;

/// The remote procedures of the streaming transport.
#[derive(Clone, Copy, Debug, PartialEq, Eq, Structural)]
pub enum Rpc {
    Ping,
    Sync,
    CreateVertex,
    CreateVertexFromType,
    CreateEdge,
    Get,
    Delete,
    SetProperties,
    BulkInsert,
    IndexProperty,
    ExecutePlugin,
}

impl Rpc {
    /// The path under which the server offers this procedure.
    pub open spec fn spec_path(self) -> Seq<char> {
        match self {
            Rpc::Ping => "/graph.Graph/Ping"@,
            Rpc::Sync => "/graph.Graph/Sync"@,
            Rpc::CreateVertex => "/graph.Graph/CreateVertex"@,
            Rpc::CreateVertexFromType => "/graph.Graph/CreateVertexFromType"@,
            Rpc::CreateEdge => "/graph.Graph/CreateEdge"@,
            Rpc::Get => "/graph.Graph/Get"@,
            Rpc::Delete => "/graph.Graph/Delete"@,
            Rpc::SetProperties => "/graph.Graph/SetProperties"@,
            Rpc::BulkInsert => "/graph.Graph/BulkInsert"@,
            Rpc::IndexProperty => "/graph.Graph/IndexProperty"@,
            Rpc::ExecutePlugin => "/graph.Graph/ExecutePlugin"@,
        }
    }

    /// The path under which the server offers this procedure.
    pub fn path(&self) -> (path: &'static str)
        ensures
            path@ == self.spec_path(),
    {
        match self {
            Rpc::Ping => "/graph.Graph/Ping",
            Rpc::Sync => "/graph.Graph/Sync",
            Rpc::CreateVertex => "/graph.Graph/CreateVertex",
            Rpc::CreateVertexFromType => "/graph.Graph/CreateVertexFromType",
            Rpc::CreateEdge => "/graph.Graph/CreateEdge",
            Rpc::Get => "/graph.Graph/Get",
            Rpc::Delete => "/graph.Graph/Delete",
            Rpc::SetProperties => "/graph.Graph/SetProperties",
            Rpc::BulkInsert => "/graph.Graph/BulkInsert",
            Rpc::IndexProperty => "/graph.Graph/IndexProperty",
            Rpc::ExecutePlugin => "/graph.Graph/ExecutePlugin",
        }
    }
}

/// What an answer holds: the bytes of a message, or a status.
pub open spec fn answer_view(reply: Result<Vec<u8>, Status>) -> Result<Seq<u8>, StatusView> {
    match reply {
        Ok(bytes) => Ok(bytes@),
        Err(status) => Err(status.deep_view()),
    }
}

/// What an operation returns for an answer: the value that the message
/// carries, a conversion error where the message carries none, and the status
/// as a protocol error.
pub open spec fn response_spec<T: Wire>(reply: Result<Seq<u8>, StatusView>) -> Result<
    T::V,
    ClientErrorView,
> {
    match reply {
        Ok(bytes) => match unmarshal_spec::<T>(bytes) {
            Ok(value) => Ok(value),
            Err(e) => Err(ClientErrorView::Conversion { inner: e }),
        },
        Err(status) => Err(ClientErrorView::Grpc { code: status.code, message: status.message }),
    }
}

/// Reads the answer to an operation that returns a `T`.
pub fn response<T: Wire>(reply: Result<Vec<u8>, Status>) -> (r: Result<T, ClientError>)
    ensures
        result_matches(r, response_spec::<T>(answer_view(reply))),
{
    match reply {
        Ok(bytes) => match unmarshal::<T>(bytes.as_slice()) {
            Ok(value) => Ok(value),
            Err(e) => Err(ClientError::Conversion { inner: e }),
        },
        Err(status) => Err(ClientError::Grpc { inner: status }),
    }
}

/// What the creation of a vertex from a type returns for an answer: the
/// identifier that the sixteen bytes of the message spell, and a conversion
/// error for any other number of bytes.
pub open spec fn identifier_response_spec(reply: Result<Seq<u8>, StatusView>) -> Result<
    u128,
    ClientErrorView,
> {
    match response_spec::<Vec<u8>>(reply) {
        Ok(bytes) => if bytes.len() == 16 {
            Ok(be_value(bytes) as u128)
        } else {
            Err(
                ClientErrorView::Conversion {
                    inner: ConversionError::InvalidIdentifierLength { len: bytes.len() as usize },
                },
            )
        },
        Err(e) => Err(e),
    }
}

/// What the execution of a plugin returns for an answer: the value that the
/// plugin gave, and the JSON null where it gave none.
pub open spec fn plugin_response_spec(reply: Result<Seq<u8>, StatusView>) -> Result<
    Seq<char>,
    ClientErrorView,
> {
    match response_spec::<Option<Json>>(reply) {
        Ok(Some(value)) => Ok(value),
        Ok(None) => Ok("null"@),
        Err(e) => Err(e),
    }
}

/// What a bulk load returns: the status if the server refused the stream, else
/// the failure that the feeding task recorded, else success.
pub open spec fn bulk_insert_spec(
    acknowledged: Result<(), StatusView>,
    recorded: Option<ClientErrorView>,
) -> Result<(), ClientErrorView> {
    match acknowledged {
        Err(status) => Err(ClientErrorView::Grpc { code: status.code, message: status.message }),
        Ok(_) => match recorded {
            Some(e) => Err(e),
            None => Ok(()),
        },
    }
}

/// A client of the server at one endpoint. Each method phrases one operation
/// as the message to send; the function of the same name that ends in `_reply`
/// reads the answer.
#[derive(Clone, Debug, PartialEq, Eq)]
pub struct Client {
    endpoint: String,
}

impl Client {
    /// The endpoint of the server.
    pub closed spec fn spec_endpoint(&self) -> Seq<char> {
        self.endpoint@
    }

    /// A client of the server at `endpoint`.
    pub fn new(endpoint: String) -> (client: Client)
        ensures
            client.spec_endpoint() == endpoint@,
    {
        Client { endpoint }
    }

    /// The endpoint of the server.
    pub fn endpoint(&self) -> (endpoint: &str)
        ensures
            endpoint@ == self.spec_endpoint(),
    {
        self.endpoint.as_str()
    }

    /// Pings the server.
    pub fn ping(&self) -> (out: Vec<u8>)
        ensures
            out@ == Seq::<u8>::empty(),
    {
        Vec::new()
    }

    /// Whether the server answered the ping.
    pub fn ping_reply(reply: Result<Vec<u8>, Status>) -> (r: Result<(), ClientError>)
        ensures
            result_matches(r, response_spec::<()>(answer_view(reply))),
    {
        response::<()>(reply)
    }

    /// Asks the server to persist what it holds.
    pub fn sync(&self) -> (out: Vec<u8>)
        ensures
            out@ == Seq::<u8>::empty(),
    {
        Vec::new()
    }

    /// Whether the server persisted what it holds.
    pub fn sync_reply(reply: Result<Vec<u8>, Status>) -> (r: Result<(), ClientError>)
        ensures
            result_matches(r, response_spec::<()>(answer_view(reply))),
    {
        response::<()>(reply)
    }

    /// Creates the vertex `vertex`.
    pub fn create_vertex(&self, vertex: &Vertex) -> (out: Vec<u8>)
        ensures
            out@ == Vertex::encoding(vertex.deep_view()),
    {
        marshal(vertex)
    }

    /// Whether the vertex was created: not if its identifier was taken.
    pub fn create_vertex_reply(reply: Result<Vec<u8>, Status>) -> (r: Result<bool, ClientError>)
        ensures
            result_matches(r, response_spec::<bool>(answer_view(reply))),
    {
        response::<bool>(reply)
    }

    /// Creates a vertex of type `t` under an identifier that the server
    /// chooses.
    pub fn create_vertex_from_type(&self, t: Type) -> (out: Vec<u8>)
        ensures
            out@ == Type::encoding(t.deep_view()),
    {
        marshal(&t)
    }

    /// The identifier that the server chose.
    pub fn create_vertex_from_type_reply(reply: Result<Vec<u8>, Status>) -> (r: Result<
        Identifier,
        ClientError,
    >)
        ensures
            result_matches(r, identifier_response_spec(answer_view(reply))),
    {
        match response::<Vec<u8>>(reply) {
            Ok(bytes) => {
                assert(bytes.deep_view() =~= bytes@);
                match Identifier::from_slice(bytes.as_slice()) {
                    Ok(id) => Ok(id),
                    Err(e) => Err(ClientError::Conversion { inner: e }),
                }
            },
            Err(e) => Err(e),
        }
    }

    /// Creates the edge `edge`, or refreshes it if it exists.
    pub fn create_edge(&self, edge: &EdgeKey) -> (out: Vec<u8>)
        ensures
            out@ == EdgeKey::encoding(edge.deep_view()),
    {
        marshal(edge)
    }

    /// Whether the edge was created or refreshed: not if one of its ends is
    /// missing.
    pub fn create_edge_reply(reply: Result<Vec<u8>, Status>) -> (r: Result<bool, ClientError>)
        ensures
            result_matches(r, response_spec::<bool>(answer_view(reply))),
    {
        response::<bool>(reply)
    }

    /// Gets the values that `q` selects. The server answers with a stream;
    /// an [`OutputCollector`] gathers it.
    pub fn get(&self, q: &Query) -> (out: Vec<u8>)
        ensures
            out@ == Query::encoding(q.deep_view()),
    {
        marshal(q)
    }

    /// Deletes the values that `q` selects.
    pub fn delete(&self, q: &Query) -> (out: Vec<u8>)
        ensures
            out@ == Query::encoding(q.deep_view()),
    {
        marshal(q)
    }

    /// Whether the values were deleted.
    pub fn delete_reply(reply: Result<Vec<u8>, Status>) -> (r: Result<(), ClientError>)
        ensures
            result_matches(r, response_spec::<()>(answer_view(reply))),
    {
        response::<()>(reply)
    }

    /// Sets the property `name` of everything that `q` selects to `value`.
    pub fn set_properties(&self, q: &Query, name: &str, value: &Json) -> (out: Vec<u8>)
        ensures
            out@ == Query::encoding(q.deep_view()) + String::encoding(name@) + Json::encoding(
                value.deep_view(),
            ),
    {
        let mut out: Vec<u8> = Vec::new();
        q.write(&mut out);
        put_text(name, &mut out);
        value.write(&mut out);
        assert(out@ =~= Query::encoding(q.deep_view()) + String::encoding(name@)
            + Json::encoding(value.deep_view()));
        out
    }

    /// Whether the property was set.
    pub fn set_properties_reply(reply: Result<Vec<u8>, Status>) -> (r: Result<(), ClientError>)
        ensures
            result_matches(r, response_spec::<()>(answer_view(reply))),
    {
        response::<()>(reply)
    }

    /// Starts a bulk load of `items`: the producer that feeds them to the
    /// channel, each as one message.
    pub fn bulk_insert(&self, items: Vec<BulkInsertItem>) -> (producer: BulkProducer)
        ensures
            producer@ == (BulkProducerView {
                items: items.deep_view(),
                next: 0,
                closed: false,
            }),
    {
        BulkProducer::new(items)
    }

    /// The result of a bulk load, once the server has acknowledged the stream
    /// or refused it: the status of a refusal, else the failure that the
    /// feeding task recorded, else success.
    pub fn bulk_insert_reply(
        acknowledged: Result<(), Status>,
        recorded: Option<ClientError>,
    ) -> (r: Result<(), ClientError>)
        ensures
            result_matches(
                r,
                bulk_insert_spec(
                    match acknowledged {
                        Ok(_) => Ok(()),
                        Err(status) => Err(status.deep_view()),
                    },
                    match recorded {
                        Some(e) => Some(e@),
                        None => None,
                    },
                ),
            ),
    {
        match acknowledged {
            Err(status) => Err(ClientError::Grpc { inner: status }),
            Ok(_) => match recorded {
                Some(e) => Err(e),
                None => Ok(()),
            },
        }
    }

    /// Asks the server to index the property `name`.
    pub fn index_property(&self, name: &str) -> (out: Vec<u8>)
        ensures
            out@ == String::encoding(name@),
    {
        let mut out: Vec<u8> = Vec::new();
        put_text(name, &mut out);
        assert(out@ =~= String::encoding(name@));
        out
    }

    /// Whether the property was indexed.
    pub fn index_property_reply(reply: Result<Vec<u8>, Status>) -> (r: Result<(), ClientError>)
        ensures
            result_matches(r, response_spec::<()>(answer_view(reply))),
    {
        response::<()>(reply)
    }

    /// Executes the plugin `name` on `arg`.
    pub fn execute_plugin(&self, name: &str, arg: &Json) -> (out: Vec<u8>)
        ensures
            out@ == String::encoding(name@) + Json::encoding(arg.deep_view()),
    {
        let mut out: Vec<u8> = Vec::new();
        put_text(name, &mut out);
        arg.write(&mut out);
        assert(out@ =~= String::encoding(name@) + Json::encoding(arg.deep_view()));
        out
    }

    /// What the plugin returned: its value, or the JSON null if it gave none.
    pub fn execute_plugin_reply(reply: Result<Vec<u8>, Status>) -> (r: Result<Json, ClientError>)
        ensures
            result_matches(r, plugin_response_spec(answer_view(reply))),
    {
        match response::<Option<Json>>(reply) {
            Ok(Some(value)) => Ok(value),
            Ok(None) => Ok(Json::null()),
            Err(e) => Err(e),
        }
    }
}

/// Gathers the stream of values that answers a `get`, in the order the server
/// emits them.
#[derive(Debug)]
pub struct OutputCollector {
    output: Vec<QueryOutputValue>,
}

impl OutputCollector {
    /// The values gathered so far, in the order they came.
    pub closed spec fn collected(&self) -> Seq<QueryOutputValueView> {
        self.output.deep_view()
    }

    /// A collector that has gathered nothing.
    pub fn new() -> (c: OutputCollector)
        ensures
            c.collected() == Seq::<QueryOutputValueView>::empty(),
    {
        let c = OutputCollector { output: Vec::new() };
        assert(c.output.deep_view() =~= Seq::<QueryOutputValueView>::empty());
        c
    }

    /// Takes the next item of the stream. An item that carries a value adds
    /// it behind those gathered; an item that is a status or carries no value
    /// is the error of the whole `get`, and nothing is added.
    pub fn accept(&mut self, item: Result<Vec<u8>, Status>) -> (r: Result<(), ClientError>)
        ensures
            match response_spec::<QueryOutputValue>(answer_view(item)) {
                Ok(value) => {
                    &&& r is Ok
                    &&& final(self).collected() == old(self).collected().push(value)
                },
                Err(e) => {
                    &&& r matches Err(f) && f@ == e
                    &&& final(self).collected() == old(self).collected()
                },
            },
    {
        match response::<QueryOutputValue>(item) {
            Ok(value) => {
                let ghost before = self.output.deep_view();
                let ghost m = value.deep_view();
                self.output.push(value);
                assert(self.output.deep_view() =~= before.push(m));
                Ok(())
            },
            Err(e) => Err(e),
        }
    }

    /// The values gathered, once the stream has ended.
    pub fn finish(self) -> (output: Vec<QueryOutputValue>)
        ensures
            output.deep_view() == self.collected(),
    {
        self.output
    }
}

/// The state of a bulk load's producer: the items, how many have been handed
/// out, and whether the channel was found closed.
pub struct BulkProducerView {
    pub items: Seq<BulkInsertItemView>,
    pub next: nat,
    pub closed: bool,
}

/// The messages of a bulk load: the encoding of each item, in order.
pub open spec fn frames_of(items: Seq<BulkInsertItemView>) -> Seq<Seq<u8>> {
    Seq::new(items.len(), |i: int| BulkInsertItem::encoding(items[i]))
}

/// Feeds the items of a bulk load to the channel, each as one message, in
/// order, until all are handed out or the channel is found closed.
#[derive(Debug)]
pub struct BulkProducer {
    items: Vec<BulkInsertItem>,
    next: usize,
    closed: bool,
}

impl View for BulkProducer {
    type V = BulkProducerView;

    closed spec fn view(&self) -> BulkProducerView {
        BulkProducerView {
            items: self.items.deep_view(),
            next: self.next as nat,
            closed: self.closed,
        }
    }
}

impl BulkProducer {
    #[verifier::type_invariant]
    spec fn well_formed(self) -> bool {
        self.next <= self.items@.len()
    }

    /// A producer that has handed out none of `items`.
    pub fn new(items: Vec<BulkInsertItem>) -> (producer: BulkProducer)
        ensures
            producer@ == (BulkProducerView {
                items: items.deep_view(),
                next: 0,
                closed: false,
            }),
    {
        BulkProducer { items, next: 0, closed: false }
    }

    /// The number of items handed out so far.
    pub fn handed_out(&self) -> (n: usize)
        ensures
            n == self@.next,
            n <= self@.items.len(),
    {
        proof {
            use_type_invariant(self);
        }
        self.next
    }

    /// The message of the next item, if the channel is open and an item is
    /// left.
    pub fn next_frame(&mut self) -> (frame: Option<Vec<u8>>)
        ensures
            final(self)@.items == old(self)@.items,
            final(self)@.closed == old(self)@.closed,
            old(self)@.next <= old(self)@.items.len(),
            old(self)@.closed || old(self)@.next == old(self)@.items.len() ==> frame is None
                && final(self)@.next == old(self)@.next,
            !old(self)@.closed && old(self)@.next < old(self)@.items.len() ==> ({
                &&& frame matches Some(bytes)
                &&& bytes@ == frames_of(old(self)@.items)[old(self)@.next as int]
                &&& final(self)@.next == old(self)@.next + 1
                &&& BulkInsertItem::valid(old(self)@.items[old(self)@.next as int])
            }),
    {
        proof {
            use_type_invariant(&*self);
        }
        if self.closed || self.next >= self.items.len() {
            None
        } else {
            let bytes = marshal(&self.items[self.next]);
            self.next = self.next + 1;
            Some(bytes)
        }
    }

    /// Records that the channel was found closed before a message could be
    /// put on it, and gives the error to record for the caller. No further
    /// message is handed out.
    pub fn channel_closed(&mut self) -> (e: ClientError)
        ensures
            e@ == ClientErrorView::ChannelClosed,
            final(self)@ == (BulkProducerView { closed: true, ..old(self)@ }),
    {
        proof {
            use_type_invariant(&*self);
        }
        self.closed = true;
        ClientError::ChannelClosed
    }
}

/// A bulk load whose channel stays open hands out one message for each item,
/// in order, and each message is read back as exactly its item.
pub proof fn lemma_bulk_insert_complete(items: Seq<BulkInsertItemView>)
    requires
        forall|i: int| 0 <= i < items.len() ==> BulkInsertItem::valid(#[trigger] items[i]),
    ensures
        frames_of(items).len() == items.len(),
        forall|i: int|
            0 <= i < items.len() ==> unmarshal_spec::<BulkInsertItem>(
                #[trigger] frames_of(items)[i],
            ) == Ok::<BulkInsertItemView, ConversionError>(items[i]),
{
    assert forall|i: int| 0 <= i < items.len() implies unmarshal_spec::<BulkInsertItem>(
        #[trigger] frames_of(items)[i],
    ) == Ok::<BulkInsertItemView, ConversionError>(items[i]) by {
        lemma_round_trip::<BulkInsertItem>(items[i]);
    }
}

/// A bulk load does not depend on the order of its items: two loads of the
/// same items, in whatever order the kinds are mixed, hand out the same
/// messages, each as often in the one as in the other.
pub proof fn lemma_bulk_insert_any_order(
    items: Seq<BulkInsertItemView>,
    permuted: Seq<BulkInsertItemView>,
)
    requires
        items.to_multiset() == permuted.to_multiset(),
    ensures
        frames_of(items).len() == frames_of(permuted).len(),
        frames_of(items).to_multiset() == frames_of(permuted).to_multiset(),
    decreases items.len(),
{
    vstd::seq_lib::to_multiset_len(items);
    vstd::seq_lib::to_multiset_len(permuted);
    if items.len() == 0 {
        assert(frames_of(items) =~= frames_of(permuted));
    } else {
        let last = items.last();
        let message = BulkInsertItem::encoding(last);
        let front = items.drop_last();
        assert(items =~= front.push(last));
        vstd::seq_lib::to_multiset_build(front, last);
        vstd::seq_lib::to_multiset_contains(permuted, last);
        assert(permuted.to_multiset().count(last) > 0);
        let j = choose|j: int| 0 <= j < permuted.len() && permuted[j] == last;
        let others = permuted.remove(j);
        vstd::seq_lib::to_multiset_remove(permuted, j);
        assert(front.to_multiset() =~= others.to_multiset());
        lemma_bulk_insert_any_order(front, others);

        assert(frames_of(items) =~= frames_of(front).push(message));
        vstd::seq_lib::to_multiset_build(frames_of(front), message);
        assert(frames_of(permuted).remove(j) =~= frames_of(others));
        assert(frames_of(permuted)[j] == message);
        vstd::seq_lib::to_multiset_remove(frames_of(permuted), j);
        vstd::seq_lib::to_multiset_contains(frames_of(permuted), message);
        assert(frames_of(permuted).contains(message));
        assert(frames_of(permuted).to_multiset() =~= frames_of(others).to_multiset().insert(
            message,
        ));
    }
}

} // verus!
