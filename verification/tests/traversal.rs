use graph_client::entities::Vertex;
use graph_client::errors::{ClientError, TransportError};
use graph_client::models::{Identifier, Type};
use graph_client::queries::RangeVertexQuery;
use graph_client::traversal::{
    page_limit, worker_count, FailureSlot, MapFailure, Traversal, VertexMapper,
    DEFAULT_NUM_WORKERS, DEFAULT_QUERY_LIMIT,
};

struct Counting;

impl VertexMapper for Counting {
    type Failure = String;

    fn map(&self, vertex: Vertex) -> Result<(), String> {
        if vertex.id.as_u128() == 13 {
            Err("unlucky".to_string())
        } else {
            Ok(())
        }
    }
}

struct Narrow;

impl VertexMapper for Narrow {
    type Failure = ();

    fn num_workers(&self) -> usize {
        1
    }

    fn query_limit(&self) -> u32 {
        0
    }

    fn t_filter(&self) -> Option<Type> {
        Some(Type::new("person".to_string()))
    }

    fn map(&self, _vertex: Vertex) -> Result<(), ()> {
        Ok(())
    }
}

fn vertex(n: u128) -> Vertex {
    Vertex::with_id(Identifier::from_u128(n), Type::new("person".to_string()))
}

/// Answers a range query as a server does that holds the vertices `ids`, in
/// increasing order.
fn serve(ids: &[u128], q: &RangeVertexQuery) -> Vec<Vertex> {
    ids.iter()
        .filter(|n| match q.start_id {
            Some(start) => **n > start.as_u128(),
            None => true,
        })
        .take(q.limit as usize)
        .map(|n| vertex(*n))
        .collect()
}

/// Runs a traversal to its end against `ids` and gives the identifiers
/// visited and the number of pages fetched.
fn run(ids: &[u128], query_limit: u32) -> (Vec<u128>, usize) {
    let mut traversal = Traversal::new(query_limit, None);
    let mut visited = Vec::new();
    let mut fetches = 0;
    while let Some(q) = traversal.next_query(false) {
        assert!(fetches <= ids.len());
        let page = serve(ids, &q);
        fetches += 1;
        traversal.accept_page(&page);
        visited.extend(page.iter().map(|v| v.id.as_u128()));
    }
    assert!(traversal.is_finished());
    (visited, fetches)
}

#[test]
fn mapper_defaults() {
    assert_eq!(Counting.num_workers(), 8);
    assert_eq!(Counting.query_limit(), 65535);
    assert_eq!(Counting.t_filter(), None);
    assert_eq!(DEFAULT_NUM_WORKERS, 8);
    assert_eq!(DEFAULT_QUERY_LIMIT, u16::MAX as u32);
    assert_eq!(Counting.map(vertex(1)), Ok(()));
    assert_eq!(Counting.map(vertex(13)), Err("unlucky".to_string()));
}

#[test]
fn at_least_two_workers_and_one_vertex_a_page() {
    assert_eq!(worker_count(0), 2);
    assert_eq!(worker_count(1), 2);
    assert_eq!(worker_count(2), 2);
    assert_eq!(worker_count(8), 8);
    assert_eq!(worker_count(usize::MAX), usize::MAX);
    assert_eq!(page_limit(0), 1);
    assert_eq!(page_limit(1), 1);
    assert_eq!(page_limit(65535), 65535);
    assert_eq!(page_limit(u32::MAX), u32::MAX);
}

#[test]
fn traversal_follows_its_mapper() {
    let narrow = Traversal::for_mapper(&Narrow);
    assert_eq!(narrow.limit(), 1);
    assert_eq!(
        narrow.next_query(false),
        Some(RangeVertexQuery {
            limit: 1,
            t: Some(Type::new("person".to_string())),
            start_id: None
        })
    );
    let counting = Traversal::for_mapper(&Counting);
    assert_eq!(counting.limit(), 65535);
    assert_eq!(
        counting.next_query(false),
        Some(RangeVertexQuery { limit: 65535, t: None, start_id: None })
    );
}

#[test]
fn pages_are_chained_by_the_last_identifier() {
    let mut traversal = Traversal::new(2, None);
    assert_eq!(traversal.cursor(), None);
    traversal.accept_page(&vec![vertex(4), vertex(9)]);
    assert_eq!(traversal.cursor(), Some(Identifier::from_u128(9)));
    assert!(!traversal.is_finished());
    assert_eq!(
        traversal.next_query(false),
        Some(RangeVertexQuery { limit: 2, t: None, start_id: Some(Identifier::from_u128(9)) })
    );
    traversal.accept_page(&vec![vertex(11)]);
    assert_eq!(traversal.cursor(), Some(Identifier::from_u128(11)));
    assert!(traversal.is_finished());
    assert_eq!(traversal.next_query(false), None);
}

#[test]
fn an_empty_page_ends_the_traversal_and_keeps_the_cursor() {
    let mut traversal = Traversal::new(2, None);
    traversal.accept_page(&vec![vertex(4), vertex(9)]);
    traversal.accept_page(&vec![]);
    assert!(traversal.is_finished());
    assert_eq!(traversal.cursor(), Some(Identifier::from_u128(9)));
}

#[test]
fn every_vertex_is_visited_once_in_order() {
    let ids: Vec<u128> = vec![1, 5, 6, 20, 21, 22, 300, u128::MAX];
    for limit in 0..12 {
        let (visited, fetches) = run(&ids, limit);
        assert_eq!(visited, ids);
        let size = if limit == 0 { 1 } else { limit as usize };
        assert_eq!(fetches, ids.len() / size + 1);
    }
}

#[test]
fn seven_vertices_in_pages_of_three() {
    let ids: Vec<u128> = (1..=7).collect();
    let (visited, fetches) = run(&ids, 3);
    assert_eq!(visited, vec![1, 2, 3, 4, 5, 6, 7]);
    assert_eq!(fetches, 3);
}

#[test]
fn a_full_last_page_costs_one_more_fetch() {
    let ids: Vec<u128> = (1..=6).collect();
    let (visited, fetches) = run(&ids, 3);
    assert_eq!(visited, ids);
    assert_eq!(fetches, 3);
    let (visited, fetches) = run(&[], 3);
    assert_eq!(visited, Vec::<u128>::new());
    assert_eq!(fetches, 1);
}

#[test]
fn no_page_is_fetched_after_a_failure() {
    let mut traversal = Traversal::new(2, None);
    assert_eq!(traversal.next_query(true), None);
    traversal.accept_page(&vec![vertex(1), vertex(2)]);
    assert!(traversal.next_query(false).is_some());
    assert_eq!(traversal.next_query(true), None);
    assert!(!traversal.is_finished());
}

#[test]
fn a_failed_fetch_ends_the_traversal() {
    let mut traversal = Traversal::new(2, None);
    traversal.accept_page(&vec![vertex(1), vertex(2)]);
    traversal.fetch_failed();
    assert!(traversal.is_finished());
    assert_eq!(traversal.next_query(false), None);
    assert_eq!(traversal.cursor(), Some(Identifier::from_u128(2)));
}

#[test]
fn the_first_failure_wins() {
    let mut slot: FailureSlot<&str> = FailureSlot::new();
    assert!(!slot.is_set());
    slot.record("first");
    assert!(slot.is_set());
    slot.record("second");
    slot.record("third");
    assert_eq!(slot.into_result(), Err("first"));
    let empty: FailureSlot<&str> = FailureSlot::new();
    assert_eq!(empty.into_result(), Ok(()));
}

#[test]
fn a_mapper_failure_short_circuits_the_traversal() {
    let ids: Vec<u128> = (10..20).collect();
    let mut traversal = Traversal::for_mapper(&Narrow);
    let mut slot: FailureSlot<MapFailure<String>> = FailureSlot::new();
    let mut fetches = 0;
    let mut mapped = 0;
    while let Some(q) = traversal.next_query(slot.is_set()) {
        let page = serve(&ids, &q);
        fetches += 1;
        traversal.accept_page(&page);
        for v in page {
            mapped += 1;
            if let Err(e) = Counting.map(v) {
                slot.record(MapFailure::Mapper(e));
            }
        }
    }
    assert_eq!(fetches, 4);
    assert_eq!(mapped, 4);
    match slot.into_result() {
        Err(MapFailure::Mapper(e)) => assert_eq!(e, "unlucky"),
        _ => panic!("the mapper's failure is the result"),
    }
}

#[test]
fn a_query_failure_is_recorded_like_any_other() {
    let mut traversal = Traversal::new(5, None);
    let mut slot: FailureSlot<MapFailure<String>> = FailureSlot::new();
    assert!(traversal.next_query(slot.is_set()).is_some());
    let lost = ClientError::from(TransportError { message: "reset".to_string() });
    slot.record(MapFailure::Query(lost.clone()));
    traversal.fetch_failed();
    slot.record(MapFailure::Mapper("late".to_string()));
    assert_eq!(traversal.next_query(slot.is_set()), None);
    match slot.into_result() {
        Err(MapFailure::Query(e)) => assert_eq!(e, lost),
        _ => panic!("the first failure is the result"),
    }
}

#[test]
fn a_fetched_page_is_handed_on_and_a_failed_fetch_is_recorded() {
    let mut traversal = Traversal::new(2, None);
    let mut slot: FailureSlot<MapFailure<String>> = FailureSlot::new();
    let work = traversal.page_fetched(Ok(vec![vertex(3), vertex(8)]), &mut slot);
    assert_eq!(work, vec![vertex(3), vertex(8)]);
    assert!(!slot.is_set());
    assert!(!traversal.is_finished());
    assert_eq!(traversal.cursor(), Some(Identifier::from_u128(8)));
    let lost = ClientError::from(TransportError { message: "reset".to_string() });
    let work = traversal.page_fetched(Err(lost.clone()), &mut slot);
    assert_eq!(work, vec![]);
    assert!(slot.is_set());
    assert!(traversal.is_finished());
    assert_eq!(traversal.cursor(), Some(Identifier::from_u128(8)));
    match slot.into_result() {
        Err(MapFailure::Query(e)) => assert_eq!(e, lost),
        _ => panic!("the failed fetch is the result"),
    }
}
