use graph_client::client_datastore::{probe_outcome, ClientTransaction, Method, ProbeOutcome};
use graph_client::entities::{Edge, EdgeKey, EdgeMetadata, Vertex, VertexMetadata};
use graph_client::errors::{ClientError, ConversionError, Status, TransportError};
use graph_client::models::{Identifier, Json, Timestamp, Type};
use graph_client::queries::{EdgeDirection, EdgeQuery, RangeVertexQuery, VertexQuery};
use graph_client::reply::{answer, Reply};
use graph_client::wire::{marshal, unmarshal};

fn tx() -> ClientTransaction {
    ClientTransaction::new(27615)
}

fn vertex() -> Vertex {
    Vertex::with_id(Identifier::from_u128(42), Type::new("person".to_string()))
}

fn edge_key() -> EdgeKey {
    EdgeKey::new(
        Identifier::from_u128(1),
        Type::new("follows".to_string()),
        Identifier::from_u128(2),
    )
}

fn vertex_query() -> VertexQuery {
    VertexQuery::Range(RangeVertexQuery {
        limit: 10,
        t: Some(Type::new("person".to_string())),
        start_id: None,
    })
}

fn edge_query() -> EdgeQuery {
    EdgeQuery::Specific { keys: vec![edge_key()] }
}

fn refusal() -> Status {
    Status { code: 13, message: "no such vertex".to_string() }
}

#[test]
fn method_tags_are_distinct_and_in_order() {
    let methods = [
        Method::Ping,
        Method::CreateVertex,
        Method::CreateVertexFromType,
        Method::GetVertices,
        Method::DeleteVertices,
        Method::GetVertexCount,
        Method::CreateEdge,
        Method::GetEdges,
        Method::DeleteEdges,
        Method::GetEdgeCount,
        Method::GetVertexMetadata,
        Method::SetVertexMetadata,
        Method::DeleteVertexMetadata,
        Method::GetEdgeMetadata,
        Method::SetEdgeMetadata,
        Method::DeleteEdgeMetadata,
    ];
    for (tag, method) in methods.iter().enumerate() {
        assert_eq!(method.code() as usize, tag);
    }
}

#[test]
fn requests_without_arguments_are_the_tag_alone() {
    assert_eq!(tx().ping(), vec![0]);
    assert_eq!(tx().get_vertex_count(), vec![5]);
}

#[test]
fn create_vertex_request_carries_the_vertex() {
    let request = tx().create_vertex(&vertex());
    assert_eq!(unmarshal::<(u8, Vertex)>(&request), Ok((1, vertex())));
}

#[test]
fn create_vertex_from_type_request_carries_the_type() {
    let t = Type::new("café".to_string());
    let request = tx().create_vertex_from_type(t.clone());
    assert_eq!(unmarshal::<(u8, Type)>(&request), Ok((2, t)));
}

#[test]
fn vertex_query_requests_carry_the_query() {
    let q = vertex_query();
    assert_eq!(unmarshal::<(u8, VertexQuery)>(&tx().get_vertices(&q)), Ok((3, q.clone())));
    assert_eq!(unmarshal::<(u8, VertexQuery)>(&tx().delete_vertices(&q)), Ok((4, q)));
}

#[test]
fn edge_requests_carry_key_or_query() {
    let q = edge_query();
    assert_eq!(unmarshal::<(u8, EdgeKey)>(&tx().create_edge(&edge_key())), Ok((6, edge_key())));
    assert_eq!(unmarshal::<(u8, EdgeQuery)>(&tx().get_edges(&q)), Ok((7, q.clone())));
    assert_eq!(unmarshal::<(u8, EdgeQuery)>(&tx().delete_edges(&q)), Ok((8, q)));
}

#[test]
fn edge_count_request_carries_id_filter_and_direction() {
    let id = Identifier::from_u128(77);
    let t = Type::new("likes".to_string());
    let with_filter = tx().get_edge_count(id, Some(&t), EdgeDirection::Inbound);
    assert_eq!(
        unmarshal::<(u8, (Identifier, (Option<Type>, EdgeDirection)))>(&with_filter),
        Ok((9, (id, (Some(t), EdgeDirection::Inbound))))
    );
    let without = tx().get_edge_count(id, None, EdgeDirection::Outbound);
    assert_eq!(
        unmarshal::<(u8, (Identifier, (Option<Type>, EdgeDirection)))>(&without),
        Ok((9, (id, (None, EdgeDirection::Outbound))))
    );
}

#[test]
fn vertex_metadata_requests_carry_query_name_and_value() {
    let q = vertex_query();
    let value = Json::new("{\"a\":[1,{\"b\":null}]}".to_string()).unwrap();
    assert_eq!(
        unmarshal::<(u8, (VertexQuery, String))>(&tx().get_vertex_metadata(&q, "名")),
        Ok((10, (q.clone(), "名".to_string())))
    );
    assert_eq!(
        unmarshal::<(u8, (VertexQuery, (String, Json)))>(&tx().set_vertex_metadata(
            &q, "k", &value
        )),
        Ok((11, (q.clone(), ("k".to_string(), value))))
    );
    assert_eq!(
        unmarshal::<(u8, (VertexQuery, String))>(&tx().delete_vertex_metadata(&q, "k")),
        Ok((12, (q, "k".to_string())))
    );
}

#[test]
fn edge_metadata_requests_carry_query_name_and_value() {
    let q = edge_query();
    let value = Json::new("[true]".to_string()).unwrap();
    assert_eq!(
        unmarshal::<(u8, (EdgeQuery, String))>(&tx().get_edge_metadata(&q, "k")),
        Ok((13, (q.clone(), "k".to_string())))
    );
    assert_eq!(
        unmarshal::<(u8, (EdgeQuery, (String, Json)))>(&tx().set_edge_metadata(&q, "k", &value)),
        Ok((14, (q.clone(), ("k".to_string(), value))))
    );
    assert_eq!(
        unmarshal::<(u8, (EdgeQuery, String))>(&tx().delete_edge_metadata(&q, "k")),
        Ok((15, (q, "k".to_string())))
    );
}

#[test]
fn success_answers_are_opened_to_their_value() {
    assert_eq!(tx().ping_reply(&marshal(&Reply::Success(true))), Ok(true));
    assert_eq!(tx().create_vertex_reply(&marshal(&Reply::Success(false))), Ok(false));
    assert_eq!(tx().create_edge_reply(&marshal(&Reply::Success(true))), Ok(true));
    assert_eq!(tx().get_vertex_count_reply(&marshal(&Reply::Success(12u64))), Ok(12));
    assert_eq!(tx().get_edge_count_reply(&marshal(&Reply::Success(0u64))), Ok(0));
    assert_eq!(tx().delete_vertices_reply(&marshal(&Reply::Success(()))), Ok(()));
    assert_eq!(tx().delete_edges_reply(&[0]), Ok(()));
    assert_eq!(tx().set_vertex_metadata_reply(&[0]), Ok(()));
    assert_eq!(tx().delete_vertex_metadata_reply(&[0]), Ok(()));
    assert_eq!(tx().set_edge_metadata_reply(&[0]), Ok(()));
    assert_eq!(tx().delete_edge_metadata_reply(&[0]), Ok(()));
    let vertices = vec![vertex(), vertex()];
    assert_eq!(
        tx().get_vertices_reply(&marshal(&Reply::Success(vertices.clone()))),
        Ok(vertices)
    );
    let edges = vec![Edge { key: edge_key(), updated: Timestamp::new(5, 6).unwrap() }];
    assert_eq!(tx().get_edges_reply(&marshal(&Reply::Success(edges.clone()))), Ok(edges));
    let vm = vec![VertexMetadata {
        id: Identifier::from_u128(3),
        value: Json::new("{\"deep\":[[[1]]]}".to_string()).unwrap(),
    }];
    assert_eq!(tx().get_vertex_metadata_reply(&marshal(&Reply::Success(vm.clone()))), Ok(vm));
    let em = vec![EdgeMetadata { key: edge_key(), value: Json::null() }];
    assert_eq!(tx().get_edge_metadata_reply(&marshal(&Reply::Success(em.clone()))), Ok(em));
}

#[test]
fn failure_answers_surface_the_status() {
    let bytes = marshal(&Reply::<bool>::Failure(refusal()));
    let expected = ClientError::Grpc { inner: refusal() };
    assert_eq!(tx().create_vertex_reply(&bytes), Err(expected.clone()));
    assert_eq!(tx().get_vertices_reply(&bytes), Err(expected.clone()));
    assert_eq!(tx().delete_edges_reply(&bytes), Err(expected.clone()));
    assert_eq!(tx().create_vertex_from_type_reply(&bytes), Err(expected.clone()));
    assert_eq!(answer::<u64>(&bytes), Err(expected));
}

#[test]
fn malformed_answers_are_conversion_errors() {
    let conversion = |inner: ConversionError| ClientError::Conversion { inner };
    assert_eq!(tx().create_vertex_reply(&[]), Err(conversion(ConversionError::Truncated)));
    assert_eq!(tx().create_vertex_reply(&[0]), Err(conversion(ConversionError::Truncated)));
    assert_eq!(
        tx().create_vertex_reply(&[0, 3]),
        Err(conversion(ConversionError::UnknownTag { tag: 3 }))
    );
    assert_eq!(
        tx().create_vertex_reply(&[2, 1]),
        Err(conversion(ConversionError::UnknownTag { tag: 2 }))
    );
    assert_eq!(
        tx().create_vertex_reply(&[0, 1, 1]),
        Err(conversion(ConversionError::TrailingBytes))
    );
    assert_eq!(
        tx().delete_vertices_reply(&[0, 0]),
        Err(conversion(ConversionError::TrailingBytes))
    );
    assert_eq!(
        tx().get_vertex_count_reply(&[0, 1, 2]),
        Err(conversion(ConversionError::Truncated))
    );
    let bad_json = marshal(&Reply::Success(vec![(Identifier::from_u128(1), "{".to_string())]));
    assert_eq!(
        tx().get_vertex_metadata_reply(&bad_json),
        Err(conversion(ConversionError::InvalidJson))
    );
}

#[test]
fn new_vertex_identifier_must_be_sixteen_bytes() {
    let value = 0xffee_ddcc_bbaa_9988_7766_5544_3322_1100u128;
    let good = marshal(&Reply::Success(Identifier::from_u128(value).to_bytes().to_vec()));
    assert_eq!(tx().create_vertex_from_type_reply(&good), Ok(Identifier::from_u128(value)));
    let short = marshal(&Reply::Success(vec![1u8, 2, 3]));
    assert_eq!(
        tx().create_vertex_from_type_reply(&short),
        Err(ClientError::Conversion {
            inner: ConversionError::InvalidIdentifierLength { len: 3 }
        })
    );
    let long = marshal(&Reply::Success(vec![0u8; 17]));
    assert_eq!(
        tx().create_vertex_from_type_reply(&long),
        Err(ClientError::Conversion {
            inner: ConversionError::InvalidIdentifierLength { len: 17 }
        })
    );
}

#[test]
fn reply_envelope_round_trips() {
    let ok: Reply<Vec<Vertex>> = Reply::Success(vec![vertex()]);
    assert_eq!(unmarshal::<Reply<Vec<Vertex>>>(&marshal(&ok)), Ok(ok));
    let failed: Reply<Vec<Vertex>> = Reply::Failure(refusal());
    assert_eq!(unmarshal::<Reply<Vec<Vertex>>>(&marshal(&failed)), Ok(failed));
    assert_eq!(unmarshal::<Status>(&marshal(&refusal())), Ok(refusal()));
    let mut expected = vec![1u8, 0, 0, 0, 13];
    expected.extend_from_slice(&[0, 0, 0, 0, 0, 0, 0, 14]);
    expected.extend_from_slice(b"no such vertex");
    assert_eq!(marshal(&Reply::<()>::Failure(refusal())), expected);
}

#[test]
fn probe_answers_decide_the_outcome() {
    assert_eq!(probe_outcome(&Ok(true)), ProbeOutcome::Ready);
    assert_eq!(probe_outcome(&Ok(false)), ProbeOutcome::NotReady);
    assert_eq!(
        probe_outcome(&Err(ClientError::Conversion { inner: ConversionError::Truncated })),
        ProbeOutcome::ProbeFailed
    );
    assert_eq!(
        probe_outcome(&Err(ClientError::from(TransportError { message: "reset".to_string() }))),
        ProbeOutcome::ProbeFailed
    );
    assert_eq!(probe_outcome(&tx().ping_reply(&[0, 1])), ProbeOutcome::Ready);
    assert_eq!(probe_outcome(&tx().ping_reply(&[0, 0])), ProbeOutcome::NotReady);
    assert_eq!(probe_outcome(&tx().ping_reply(&[])), ProbeOutcome::ProbeFailed);
}

#[test]
fn client_errors_describe_themselves() {
    assert_eq!(
        ClientError::from(ConversionError::InvalidJson).message(),
        "property value is not JSON"
    );
    assert_eq!(ClientError::from(refusal()).message(), "grpc error: no such vertex");
    assert_eq!(
        ClientError::from(TransportError { message: "connection refused".to_string() }).message(),
        "transport error: connection refused"
    );
    assert_eq!(ClientError::ChannelClosed.message(), "failed to send request: channel closed");
    assert_eq!(
        ClientError::from(ConversionError::Truncated).conversion_source(),
        Some(ConversionError::Truncated)
    );
    assert_eq!(ClientError::ChannelClosed.conversion_source(), None);
    assert_eq!(ClientError::from(refusal()).conversion_source(), None);
    assert_eq!(ClientError::from(refusal()), ClientError::Grpc { inner: refusal() });
}
