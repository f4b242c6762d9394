use graph_client::entities::{
    Edge, EdgeKey, EdgeMetadata, EdgeProperties, NamedProperty, Vertex, VertexMetadata,
    VertexProperties,
};
use graph_client::errors::ConversionError;
use graph_client::items::{BulkInsertItem, QueryOutputValue};
use graph_client::models::{Identifier, Json, Timestamp, Type};
use graph_client::queries::{EdgeDirection, EdgeQuery, Query, RangeVertexQuery, VertexQuery};
use graph_client::wire::{marshal, unmarshal};

fn id(n: u128) -> Identifier {
    Identifier::from_u128(n)
}

fn label(text: &str) -> Type {
    Type::new(text.to_string())
}

fn json(text: &str) -> Json {
    Json::new(text.to_string()).unwrap()
}

fn key(from: u128, t: &str, to: u128) -> EdgeKey {
    EdgeKey::new(id(from), label(t), id(to))
}

fn edge(from: u128, t: &str, to: u128, seconds: i64, nanos: u32) -> Edge {
    Edge { key: key(from, t, to), updated: Timestamp::new(seconds, nanos).unwrap() }
}

#[test]
fn integers_are_big_endian() {
    assert_eq!(marshal(&0x0102_0304u32), vec![1, 2, 3, 4]);
    assert_eq!(marshal(&0x0102_0304_0506_0708u64), vec![1, 2, 3, 4, 5, 6, 7, 8]);
    assert_eq!(marshal(&7u8), vec![7]);
    assert_eq!(marshal(&-2i64), vec![255, 255, 255, 255, 255, 255, 255, 254]);
    assert_eq!(marshal(&i64::MIN), vec![128, 0, 0, 0, 0, 0, 0, 0]);
    assert_eq!(unmarshal::<u32>(&[1, 2, 3, 4]), Ok(0x0102_0304));
    assert_eq!(unmarshal::<u64>(&[255; 8]), Ok(u64::MAX));
    assert_eq!(unmarshal::<i64>(&[255; 8]), Ok(-1));
    assert_eq!(unmarshal::<i64>(&[128, 0, 0, 0, 0, 0, 0, 0]), Ok(i64::MIN));
    assert_eq!(unmarshal::<i64>(&[127, 255, 255, 255, 255, 255, 255, 255]), Ok(i64::MAX));
}

#[test]
fn booleans_are_one_strict_byte() {
    assert_eq!(marshal(&true), vec![1]);
    assert_eq!(marshal(&false), vec![0]);
    assert_eq!(unmarshal::<bool>(&[1]), Ok(true));
    assert_eq!(unmarshal::<bool>(&[0]), Ok(false));
    assert_eq!(unmarshal::<bool>(&[2]), Err(ConversionError::UnknownTag { tag: 2 }));
}

#[test]
fn identifier_is_sixteen_bytes_most_significant_first() {
    let value = 0x0102_0304_0506_0708_090a_0b0c_0d0e_0f10u128;
    let expected: Vec<u8> = (1..=16).collect();
    assert_eq!(marshal(&id(value)), expected);
    assert_eq!(id(value).to_bytes().to_vec(), expected);
    assert_eq!(id(value).to_bytes(), *uuid::Uuid::from_u128(value).as_bytes());
    assert_eq!(unmarshal::<Identifier>(&expected), Ok(id(value)));
    assert_eq!(Identifier::from_slice(&expected), Ok(id(value)));
    assert_eq!(Identifier::from_slice(&expected).unwrap().as_u128(), value);
}

#[test]
fn identifier_of_wrong_length_is_rejected() {
    assert_eq!(
        Identifier::from_slice(&[0; 15]),
        Err(ConversionError::InvalidIdentifierLength { len: 15 })
    );
    assert_eq!(
        Identifier::from_slice(&[0; 17]),
        Err(ConversionError::InvalidIdentifierLength { len: 17 })
    );
    assert_eq!(
        Identifier::from_slice(&[]),
        Err(ConversionError::InvalidIdentifierLength { len: 0 })
    );
    assert_eq!(unmarshal::<Identifier>(&[0; 15]), Err(ConversionError::Truncated));
    assert_eq!(unmarshal::<Identifier>(&[0; 17]), Err(ConversionError::TrailingBytes));
}

#[test]
fn identifiers_are_ordered_as_numbers() {
    assert!(id(1).precedes(&id(2)));
    assert!(!id(2).precedes(&id(2)));
    assert!(!id(3).precedes(&id(2)));
    assert!(id(1) < id(1 << 100));
    assert!(uuid::Uuid::from_u128(1) < uuid::Uuid::from_u128(1 << 100));
}

#[test]
fn text_is_length_then_utf8() {
    assert_eq!(marshal(&"ab".to_string()), vec![0, 0, 0, 0, 0, 0, 0, 2, b'a', b'b']);
    assert_eq!(marshal(&String::new()), vec![0; 8]);
    let accented = "é".to_string();
    assert_eq!(marshal(&accented), vec![0, 0, 0, 0, 0, 0, 0, 2, 0xc3, 0xa9]);
    assert_eq!(unmarshal::<String>(&marshal(&accented)), Ok(accented));
}

#[test]
fn text_that_is_not_utf8_is_rejected() {
    let bytes = vec![0, 0, 0, 0, 0, 0, 0, 2, 0xc3, 0x28];
    assert_eq!(unmarshal::<String>(&bytes), Err(ConversionError::InvalidUtf8));
    assert_eq!(unmarshal::<Type>(&bytes), Err(ConversionError::InvalidUtf8));
}

#[test]
fn text_shorter_than_its_length_is_truncated() {
    assert_eq!(
        unmarshal::<String>(&[0, 0, 0, 0, 0, 0, 0, 3, b'a', b'b']),
        Err(ConversionError::Truncated)
    );
    assert_eq!(
        unmarshal::<String>(&[255, 255, 255, 255, 255, 255, 255, 255, b'a']),
        Err(ConversionError::Truncated)
    );
    assert_eq!(unmarshal::<String>(&[0, 0, 0]), Err(ConversionError::Truncated));
    assert_eq!(
        unmarshal::<String>(&[0, 0, 0, 0, 0, 0, 0, 1, b'a', b'b']),
        Err(ConversionError::TrailingBytes)
    );
}

#[test]
fn type_label_round_trips_with_non_ascii_text() {
    for text in ["person", "", "café", "人物", "тип-1", "😀_type"] {
        let t = label(text);
        assert_eq!(t.as_str(), text);
        assert_eq!(unmarshal::<Type>(&marshal(&t)), Ok(t));
    }
}

#[test]
fn json_is_checked_when_built() {
    assert!(Json::new("{\"a\": [1, 2, {\"b\": null}]}".to_string()).is_ok());
    assert!(Json::new("3.5e10".to_string()).is_ok());
    assert!(Json::new("\"text\"".to_string()).is_ok());
    assert_eq!(Json::new("{".to_string()), Err(ConversionError::InvalidJson));
    assert_eq!(Json::new("".to_string()), Err(ConversionError::InvalidJson));
    assert_eq!(Json::new("nul".to_string()), Err(ConversionError::InvalidJson));
    assert_eq!(Json::new("1 2".to_string()), Err(ConversionError::InvalidJson));
    assert_eq!(Json::null().as_str(), "null");
    assert_eq!(Json::null(), json("null"));
}

#[test]
fn json_round_trips_with_nested_structures() {
    for text in [
        "null",
        "true",
        "-12",
        "\"é\"",
        "[]",
        "{\"a\":[1,2,{\"b\":null,\"c\":[[],{}]}],\"名\":\"值\"}",
        "  { \"spaced\" : [ 1 , 2 ] }  ",
    ] {
        let value = json(text);
        let bytes = marshal(&value);
        let back = unmarshal::<Json>(&bytes).unwrap();
        assert_eq!(back.as_str(), text);
        assert_eq!(back, value);
        let parsed: serde_json::Value = serde_json::from_str(back.as_str()).unwrap();
        let expected: serde_json::Value = serde_json::from_str(text).unwrap();
        assert_eq!(parsed, expected);
    }
}

#[test]
fn json_that_is_not_json_is_rejected_on_the_wire() {
    let bytes = marshal(&"{oops".to_string());
    assert_eq!(unmarshal::<Json>(&bytes), Err(ConversionError::InvalidJson));
    let property = marshal(&("name".to_string(), "[1,".to_string()));
    assert_eq!(unmarshal::<NamedProperty>(&property), Err(ConversionError::InvalidJson));
}

#[test]
fn timestamp_keeps_nanoseconds_below_a_second() {
    assert!(Timestamp::new(0, 999_999_999).is_some());
    assert!(Timestamp::new(0, 1_000_000_000).is_none());
    assert!(Timestamp::new(-5, u32::MAX).is_none());
    let t = Timestamp::new(-5, 17).unwrap();
    assert_eq!(t.seconds(), -5);
    assert_eq!(t.nanos(), 17);
    assert_eq!(unmarshal::<Timestamp>(&marshal(&t)), Ok(t));
    let bad = marshal(&(3i64, 1_000_000_000u32));
    assert_eq!(unmarshal::<Timestamp>(&bad), Err(ConversionError::InvalidTimestamp));
}

#[test]
fn timestamps_are_ordered_by_seconds_then_nanoseconds() {
    let a = Timestamp::new(10, 5).unwrap();
    let b = Timestamp::new(10, 6).unwrap();
    let c = Timestamp::new(11, 0).unwrap();
    let d = Timestamp::new(-1, 999).unwrap();
    assert!(a.at_or_before(&a));
    assert!(a.at_or_before(&b));
    assert!(!b.at_or_before(&a));
    assert!(b.at_or_before(&c));
    assert!(!c.at_or_before(&b));
    assert!(d.at_or_before(&a));
    assert!(!a.at_or_before(&d));
}

#[test]
fn vertex_is_identifier_then_type() {
    let v = Vertex::with_id(id(1), label("a"));
    let mut expected = vec![0u8; 15];
    expected.push(1);
    expected.extend_from_slice(&[0, 0, 0, 0, 0, 0, 0, 1, b'a']);
    assert_eq!(marshal(&v), expected);
    assert_eq!(unmarshal::<Vertex>(&expected), Ok(v));
}

#[test]
fn entities_round_trip() {
    let v = Vertex::with_id(id(u128::MAX), label("顶点"));
    assert_eq!(unmarshal::<Vertex>(&marshal(&v)), Ok(v.clone()));
    let k = key(1, "follows", 2);
    assert_eq!(unmarshal::<EdgeKey>(&marshal(&k)), Ok(k.clone()));
    let e = edge(1, "follows", 2, 1_700_000_000, 123_456_789);
    assert_eq!(unmarshal::<Edge>(&marshal(&e)), Ok(e.clone()));
    let p = NamedProperty { name: "weight".to_string(), value: json("{\"kg\":[1,2.5]}") };
    assert_eq!(unmarshal::<NamedProperty>(&marshal(&p)), Ok(p.clone()));
    let vm = VertexMetadata { id: id(9), value: json("[null]") };
    assert_eq!(unmarshal::<VertexMetadata>(&marshal(&vm)), Ok(vm));
    let em = EdgeMetadata { key: k.clone(), value: json("\"x\"") };
    assert_eq!(unmarshal::<EdgeMetadata>(&marshal(&em)), Ok(em));
    let vp = VertexProperties { vertex: v, props: vec![p.clone(), p.clone()] };
    assert_eq!(unmarshal::<VertexProperties>(&marshal(&vp)), Ok(vp));
    let ep = EdgeProperties { edge: e, props: vec![] };
    assert_eq!(unmarshal::<EdgeProperties>(&marshal(&ep)), Ok(ep));
}

#[test]
fn lists_are_count_then_items() {
    let ids = vec![id(1), id(2)];
    let bytes = marshal(&ids);
    assert_eq!(bytes.len(), 8 + 32);
    assert_eq!(&bytes[..8], &[0, 0, 0, 0, 0, 0, 0, 2]);
    assert_eq!(unmarshal::<Vec<Identifier>>(&bytes), Ok(ids));
    assert_eq!(unmarshal::<Vec<Identifier>>(&bytes[..39]), Err(ConversionError::Truncated));
    assert_eq!(unmarshal::<Vec<u8>>(&[0, 0, 0, 0, 0, 0, 0, 0]), Ok(vec![]));
    assert_eq!(
        unmarshal::<Vec<u8>>(&[255, 255, 255, 255, 255, 255, 255, 255, 1, 2]),
        Err(ConversionError::Truncated)
    );
    assert_eq!(
        unmarshal::<Vec<bool>>(&[0, 0, 0, 0, 0, 0, 0, 2, 1, 7]),
        Err(ConversionError::UnknownTag { tag: 7 })
    );
}

#[test]
fn optional_values_are_tagged() {
    assert_eq!(marshal(&None::<u8>), vec![0]);
    assert_eq!(marshal(&Some(9u8)), vec![1, 9]);
    assert_eq!(unmarshal::<Option<u8>>(&[0]), Ok(None));
    assert_eq!(unmarshal::<Option<u8>>(&[1, 9]), Ok(Some(9)));
    assert_eq!(unmarshal::<Option<u8>>(&[2, 9]), Err(ConversionError::UnknownTag { tag: 2 }));
    assert_eq!(unmarshal::<Option<u8>>(&[1]), Err(ConversionError::Truncated));
    assert_eq!(unmarshal::<Option<u8>>(&[0, 9]), Err(ConversionError::TrailingBytes));
}

#[test]
fn queries_round_trip() {
    let range = RangeVertexQuery { limit: 100, t: Some(label("person")), start_id: Some(id(7)) };
    assert_eq!(unmarshal::<RangeVertexQuery>(&marshal(&range)), Ok(range.clone()));
    let queries = vec![
        Query::Vertex(range.clone().into_query()),
        Query::Vertex(VertexQuery::Range(RangeVertexQuery { limit: 0, t: None, start_id: None })),
        Query::Vertex(VertexQuery::Specific { ids: vec![id(3), id(1), id(2)] }),
        Query::Vertex(VertexQuery::Specific { ids: vec![] }),
        Query::Edge(EdgeQuery::Specific { keys: vec![key(1, "a", 2), key(2, "b", 1)] }),
        Query::Edge(EdgeQuery::Incident {
            id: id(5),
            direction: EdgeDirection::Inbound,
            t: Some(label("likes")),
            limit: u32::MAX,
        }),
        Query::Edge(EdgeQuery::Incident {
            id: id(5),
            direction: EdgeDirection::Outbound,
            t: None,
            limit: 1,
        }),
    ];
    for q in queries {
        assert_eq!(unmarshal::<Query>(&marshal(&q)), Ok(q.clone()));
        match &q {
            Query::Vertex(inner) => {
                assert_eq!(unmarshal::<VertexQuery>(&marshal(inner)), Ok(inner.clone()))
            }
            Query::Edge(inner) => {
                assert_eq!(unmarshal::<EdgeQuery>(&marshal(inner)), Ok(inner.clone()))
            }
        }
    }
}

#[test]
fn range_query_is_limit_type_cursor() {
    let range = RangeVertexQuery { limit: 2, t: None, start_id: Some(id(1)) };
    let mut expected = vec![0, 0, 0, 2, 0, 1];
    expected.extend_from_slice(&[0; 15]);
    expected.push(1);
    assert_eq!(marshal(&range), expected);
    let mut tagged = vec![0u8];
    tagged.extend_from_slice(&expected);
    assert_eq!(marshal(&VertexQuery::Range(range)), tagged);
}

#[test]
fn unknown_variant_tags_are_rejected() {
    assert_eq!(unmarshal::<Query>(&[2]), Err(ConversionError::UnknownTag { tag: 2 }));
    assert_eq!(unmarshal::<VertexQuery>(&[9, 0]), Err(ConversionError::UnknownTag { tag: 9 }));
    assert_eq!(unmarshal::<EdgeQuery>(&[2]), Err(ConversionError::UnknownTag { tag: 2 }));
    assert_eq!(unmarshal::<EdgeDirection>(&[2]), Err(ConversionError::UnknownTag { tag: 2 }));
    assert_eq!(unmarshal::<BulkInsertItem>(&[4]), Err(ConversionError::UnknownTag { tag: 4 }));
    assert_eq!(
        unmarshal::<QueryOutputValue>(&[5]),
        Err(ConversionError::UnknownTag { tag: 5 })
    );
    assert_eq!(unmarshal::<Query>(&[]), Err(ConversionError::Truncated));
    assert_eq!(unmarshal::<EdgeDirection>(&[0]), Ok(EdgeDirection::Outbound));
    assert_eq!(unmarshal::<EdgeDirection>(&[1]), Ok(EdgeDirection::Inbound));
    assert_eq!(marshal(&EdgeDirection::Inbound), vec![1]);
}

#[test]
fn bulk_items_round_trip() {
    let items = vec![
        BulkInsertItem::Vertex(Vertex::with_id(id(1), label("a"))),
        BulkInsertItem::Edge(key(1, "b", 2)),
        BulkInsertItem::VertexProperty(id(1), "n".to_string(), json("{\"k\":[1,{\"z\":[]}]}")),
        BulkInsertItem::EdgeProperty(key(1, "b", 2), "值".to_string(), json("\"é\"")),
    ];
    for (tag, item) in items.iter().enumerate() {
        let bytes = marshal(item);
        assert_eq!(bytes[0] as usize, tag);
        assert_eq!(unmarshal::<BulkInsertItem>(&bytes), Ok(item.clone()));
    }
}

#[test]
fn output_values_round_trip() {
    let v = Vertex::with_id(id(1), label("a"));
    let e = edge(1, "b", 2, 5, 6);
    let p = NamedProperty { name: "n".to_string(), value: json("[1,[2,[3]]]") };
    let values = vec![
        QueryOutputValue::Vertices(vec![v.clone(), v.clone()]),
        QueryOutputValue::Edges(vec![e.clone()]),
        QueryOutputValue::Count(u64::MAX),
        QueryOutputValue::VertexProperties(vec![VertexProperties {
            vertex: v,
            props: vec![p.clone()],
        }]),
        QueryOutputValue::EdgeProperties(vec![EdgeProperties { edge: e, props: vec![p] }]),
    ];
    for (tag, value) in values.iter().enumerate() {
        let bytes = marshal(value);
        assert_eq!(bytes[0] as usize, tag);
        assert_eq!(unmarshal::<QueryOutputValue>(&bytes), Ok(value.clone()));
        assert_eq!(
            unmarshal::<QueryOutputValue>(&bytes[..bytes.len() - 1]),
            Err(ConversionError::Truncated)
        );
    }
}

#[test]
fn conversion_errors_describe_themselves() {
    assert_eq!(ConversionError::Truncated.message(), "payload ended early");
    assert_eq!(ConversionError::TrailingBytes.message(), "payload has trailing bytes");
    assert_eq!(ConversionError::UnknownTag { tag: 3 }.message(), "unknown variant tag");
    assert_eq!(ConversionError::InvalidUtf8.message(), "text is not UTF-8");
    assert_eq!(ConversionError::InvalidJson.message(), "property value is not JSON");
    assert_eq!(
        ConversionError::InvalidIdentifierLength { len: 3 }.message(),
        "identifier is not 16 bytes long"
    );
    assert_eq!(ConversionError::InvalidTimestamp.message(), "timestamp is out of range");
}
