//! The paginated traversal of every vertex: which page to ask for next, when
//! to stop, and which failure to report.
//!
//! The traversal asks for the vertices page by page in identifier order, each
//! page after the last identifier of the one before, and hands every vertex to
//! a pool of workers. The decisions are taken here; the caller fetches the
//! pages and runs the workers.

use crate::entities::{Vertex, VertexView};
use crate::errors::ClientError;
use crate::models::{Identifier, Type};
use crate::queries::{RangeVertexQuery, RangeVertexQueryView};
use vstd::prelude::*;

verus! {

/// The number of workers of a mapper that does not say.
pub const DEFAULT_NUM_WORKERS: usize = 8;

/// The page size of a mapper that does not say.
pub const DEFAULT_QUERY_LIMIT: u32 = 65535;

/// The fewest workers that a traversal runs with.
pub const MIN_NUM_WORKERS: usize = 2;

/// The smallest page that a traversal asks for.
pub const MIN_QUERY_LIMIT: u32 = 1;

/// An operation to apply to every vertex.
pub trait VertexMapper: Send + Sync + 'static {
    /// What the operation fails with.
    type Failure: Send + 'static;

    /// The number of workers wanted: `DEFAULT_NUM_WORKERS`, unless the mapper
    /// says otherwise.
    fn num_workers(&self) -> (workers: usize)
        default_ensures
            workers == DEFAULT_NUM_WORKERS,
    {
        DEFAULT_NUM_WORKERS
    }

    /// The page size wanted: `DEFAULT_QUERY_LIMIT`, unless the mapper says
    /// otherwise.
    fn query_limit(&self) -> (limit: u32)
        default_ensures
            limit == DEFAULT_QUERY_LIMIT,
    {
        DEFAULT_QUERY_LIMIT
    }

    /// The type to which the traversal is restricted, if any: none, unless
    /// the mapper says otherwise.
    fn t_filter(&self) -> (filter: Option<Type>)
        default_ensures
            filter is None,
    {
        None
    }

    /// Applies the operation to `vertex`.
    fn map(&self, vertex: Vertex) -> Result<(), Self::Failure>;
}

/// Why a traversal failed.
#[derive(Debug)]
pub enum MapFailure<E> {
    /// A page could not be fetched.
    Query(ClientError),
    /// The mapper failed on a vertex.
    Mapper(E),
}

/// The number of workers to run for a mapper that wants `requested`.
pub fn worker_count(requested: usize) -> (workers: usize)
    ensures
        workers == if requested >= MIN_NUM_WORKERS {
            requested
        } else {
            MIN_NUM_WORKERS
        },
{
    if requested >= MIN_NUM_WORKERS {
        requested
    } else {
        MIN_NUM_WORKERS
    }
}

/// The page size to ask for on behalf of a mapper that wants `requested`.
pub open spec fn spec_page_limit(requested: u32) -> u32 {
    if requested >= MIN_QUERY_LIMIT {
        requested
    } else {
        MIN_QUERY_LIMIT
    }
}

/// The page size to ask for on behalf of a mapper that wants `requested`.
pub fn page_limit(requested: u32) -> (limit: u32)
    ensures
        limit == spec_page_limit(requested),
{
    if requested >= MIN_QUERY_LIMIT {
        requested
    } else {
        MIN_QUERY_LIMIT
    }
}

/// The cell that holds the failure of a traversal: the first one recorded.
#[derive(Debug)]
pub struct FailureSlot<E> {
    first: Option<E>,
}

/// What a slot holds after `failure` is recorded in one that held `slot`: what
/// it held, if anything, and `failure` if it was empty.
pub open spec fn recorded<E>(slot: Option<E>, failure: E) -> Option<E> {
    match slot {
        Some(first) => Some(first),
        None => Some(failure),
    }
}

/// What a slot holds after each of `failures` is recorded in it, in order.
pub open spec fn recorded_all<E>(slot: Option<E>, failures: Seq<E>) -> Option<E>
    decreases failures.len(),
{
    if failures.len() == 0 {
        slot
    } else {
        recorded_all(recorded(slot, failures[0]), failures.skip(1))
    }
}

impl<E> View for FailureSlot<E> {
    type V = Option<E>;

    closed spec fn view(&self) -> Option<E> {
        self.first
    }
}

impl<E> FailureSlot<E> {
    /// An empty slot.
    pub fn new() -> (slot: FailureSlot<E>)
        ensures
            slot@ == None::<E>,
    {
        FailureSlot { first: None }
    }

    /// Whether a failure has been recorded.
    pub fn is_set(&self) -> (b: bool)
        ensures
            b == self@.is_some(),
    {
        self.first.is_some()
    }

    /// Records `failure`, unless one has been recorded already.
    pub fn record(&mut self, failure: E)
        ensures
            final(self)@ == recorded(old(self)@, failure),
    {
        if self.first.is_none() {
            self.first = Some(failure);
        }
    }

    /// The result of the traversal: the failure recorded, or success.
    pub fn into_result(self) -> (r: Result<(), E>)
        ensures
            r == match self@ {
                Some(first) => Err::<(), E>(first),
                None => Ok::<(), E>(()),
            },
    {
        match self.first {
            Some(first) => Err(first),
            None => Ok(()),
        }
    }
}

/// The state of a traversal: the page size, the type filter, the last
/// identifier seen, and whether the traversal is over.
pub struct TraversalView {
    pub limit: u32,
    pub t: Option<Seq<char>>,
    pub cursor: Option<u128>,
    pub finished: bool,
}

/// The identifiers of the vertices of a page, in order.
pub open spec fn ids_of(page: Seq<VertexView>) -> Seq<u128> {
    Seq::new(page.len(), |i: int| page[i].id)
}

impl TraversalView {
    /// The state before the first page, for a mapper that wants pages of
    /// `query_limit` vertices of type `t`.
    pub open spec fn initial(query_limit: u32, t: Option<Seq<char>>) -> TraversalView {
        TraversalView { limit: spec_page_limit(query_limit), t, cursor: None, finished: false }
    }

    /// The page to fetch next, if any: none once the traversal is over, and
    /// none once a failure has been recorded.
    pub open spec fn next_query(self, failed: bool) -> Option<RangeVertexQueryView> {
        if self.finished || failed {
            None
        } else {
            Some(RangeVertexQueryView { limit: self.limit, t: self.t, start_id: self.cursor })
        }
    }

    /// The state after a page with the identifiers `ids` was fetched: the
    /// cursor stands on the last of them, and a page short of the page size
    /// was the last.
    pub open spec fn after_page(self, ids: Seq<u128>) -> TraversalView {
        TraversalView {
            cursor: if ids.len() > 0 {
                Some(ids.last())
            } else {
                self.cursor
            },
            finished: ids.len() < self.limit,
            ..self
        }
    }

    /// The state after a page could not be fetched.
    pub open spec fn after_failure(self) -> TraversalView {
        TraversalView { finished: true, ..self }
    }
}

/// The pagination of one traversal.
#[derive(Debug)]
pub struct Traversal {
    limit: u32,
    t: Option<Type>,
    cursor: Option<Identifier>,
    finished: bool,
}

impl View for Traversal {
    type V = TraversalView;

    closed spec fn view(&self) -> TraversalView {
        TraversalView {
            limit: self.limit,
            t: self.t.deep_view(),
            cursor: self.cursor.deep_view(),
            finished: self.finished,
        }
    }
}

impl Traversal {
    /// A traversal in pages of `query_limit` vertices, or of one if that is
    /// zero, restricted to the type `t_filter` if there is one.
    pub fn new(query_limit: u32, t_filter: Option<Type>) -> (traversal: Traversal)
        ensures
            traversal@ == TraversalView::initial(query_limit, t_filter.deep_view()),
    {
        Traversal { limit: page_limit(query_limit), t: t_filter, cursor: None, finished: false }
    }

    /// A traversal as `mapper` wants it: in pages of the size that the mapper
    /// asks for, restricted to the type that the mapper names. Whatever the
    /// mapper says, the pages hold at least one vertex and the traversal
    /// starts before the first.
    pub fn for_mapper<M: VertexMapper>(mapper: &M) -> (traversal: Traversal)
        ensures
            exists|wanted: u32, filter: Option<Type>|
                call_ensures(M::query_limit, (mapper,), wanted) && call_ensures(
                    M::t_filter,
                    (mapper,),
                    filter,
                ) && traversal@ == TraversalView::initial(wanted, filter.deep_view()),
            traversal@.limit >= MIN_QUERY_LIMIT,
            traversal@.cursor is None,
            !traversal@.finished,
    {
        let wanted = mapper.query_limit();
        let filter = mapper.t_filter();
        let ghost named = filter;
        let traversal = Traversal::new(wanted, filter);
        assert(call_ensures(M::query_limit, (mapper,), wanted) && call_ensures(
            M::t_filter,
            (mapper,),
            named,
        ) && traversal@ == TraversalView::initial(wanted, named.deep_view()));
        traversal
    }

    /// Whether the traversal is over.
    pub fn is_finished(&self) -> (b: bool)
        ensures
            b == self@.finished,
    {
        self.finished
    }

    /// The page size.
    pub fn limit(&self) -> (limit: u32)
        ensures
            limit == self@.limit,
    {
        self.limit
    }

    /// The last identifier seen, if any.
    pub fn cursor(&self) -> (cursor: Option<Identifier>)
        ensures
            cursor.deep_view() == self@.cursor,
    {
        self.cursor
    }

    /// The page to fetch next, if any. `failed` says whether a failure has
    /// been recorded: once one has, no page is fetched.
    pub fn next_query(&self, failed: bool) -> (q: Option<RangeVertexQuery>)
        ensures
            q.deep_view() == self@.next_query(failed),
    {
        if self.finished || failed {
            None
        } else {
            let t = match &self.t {
                Some(t) => Some(t.clone()),
                None => None,
            };
            Some(RangeVertexQuery { limit: self.limit, t, start_id: self.cursor })
        }
    }

    /// Takes the page that was fetched, before its vertices are handed to the
    /// workers.
    pub fn accept_page(&mut self, page: &Vec<Vertex>)
        ensures
            final(self)@ == old(self)@.after_page(ids_of(page.deep_view())),
    {
        let count = page.len();
        if count > 0 {
            self.cursor = Some(page[count - 1].id);
        }
        self.finished = count < self.limit as usize;
    }

    /// Takes note that a page could not be fetched: the traversal is over.
    pub fn fetch_failed(&mut self)
        ensures
            final(self)@ == old(self)@.after_failure(),
    {
        self.finished = true;
    }

    /// Takes the outcome of a page fetch and gives the vertices to hand to the
    /// workers. A page is accepted and handed on whole; a failure is recorded
    /// in `slot`, ends the traversal and hands on nothing.
    pub fn page_fetched<E>(
        &mut self,
        page: Result<Vec<Vertex>, ClientError>,
        slot: &mut FailureSlot<MapFailure<E>>,
    ) -> (work: Vec<Vertex>)
        ensures
            match page {
                Ok(vertices) => {
                    &&& final(self)@ == old(self)@.after_page(ids_of(vertices.deep_view()))
                    &&& final(slot)@ == old(slot)@
                    &&& work == vertices
                },
                Err(e) => {
                    &&& final(self)@ == old(self)@.after_failure()
                    &&& final(slot)@ == recorded(old(slot)@, MapFailure::Query(e))
                    &&& work@.len() == 0
                },
            },
    {
        match page {
            Ok(vertices) => {
                self.accept_page(&vertices);
                vertices
            },
            Err(e) => {
                slot.record(MapFailure::Query(e));
                self.fetch_failed();
                Vec::new()
            },
        }
    }
}

/// Whether `ids` are in strictly increasing order.
pub open spec fn increasing(ids: Seq<u128>) -> bool {
    forall|i: int, j: int| 0 <= i < j < ids.len() ==> ids[i] < ids[j]
}

/// The number of `ids`, which are in increasing order, that are at or before
/// `cursor`.
pub open spec fn rank(ids: Seq<u128>, cursor: Option<u128>) -> nat
    decreases ids.len(),
{
    match cursor {
        None => 0,
        Some(c) => if ids.len() == 0 {
            0
        } else if ids.last() <= c {
            ids.len()
        } else {
            rank(ids.drop_last(), cursor)
        },
    }
}

/// The page that a server answers with whose vertices have exactly the
/// identifiers `ids`, in increasing order: the first `limit` of those after
/// `cursor`.
pub open spec fn page_of(ids: Seq<u128>, cursor: Option<u128>, limit: nat) -> Seq<u128> {
    let start = rank(ids, cursor) as int;
    let end = if start + limit <= ids.len() {
        start + limit
    } else {
        ids.len() as int
    };
    ids.subrange(start, end)
}

/// The identifiers that a traversal in `state` visits in at most `fetches`
/// page fetches against a server whose vertices have the identifiers `ids`.
pub open spec fn visited(state: TraversalView, ids: Seq<u128>, fetches: nat) -> Seq<u128>
    decreases fetches,
{
    if fetches == 0 || state.next_query(false) is None {
        Seq::empty()
    } else {
        let page = page_of(ids, state.cursor, state.limit as nat);
        page + visited(state.after_page(page), ids, (fetches - 1) as nat)
    }
}

/// The state of a traversal in `state` after at most `fetches` page fetches
/// against a server whose vertices have the identifiers `ids`.
pub open spec fn state_after(state: TraversalView, ids: Seq<u128>, fetches: nat) -> TraversalView
    decreases fetches,
{
    if fetches == 0 || state.next_query(false) is None {
        state
    } else {
        let page = page_of(ids, state.cursor, state.limit as nat);
        state_after(state.after_page(page), ids, (fetches - 1) as nat)
    }
}

/// Among identifiers in increasing order, as many are at or before the one
/// at index `j` as `j + 1`.
proof fn lemma_rank_of_member(ids: Seq<u128>, j: int)
    requires
        increasing(ids),
        0 <= j < ids.len(),
    ensures
        rank(ids, Some(ids[j])) == j + 1,
    decreases ids.len(),
{
    if j < ids.len() - 1 {
        let front = ids.drop_last();
        assert(ids[j] < ids.last());
        assert(front[j] == ids[j]);
        lemma_rank_of_member(front, j);
    }
}

/// A traversal that stands behind the first `k` identifiers visits the others,
/// each once and in order, and then is over.
proof fn lemma_visits_rest(state: TraversalView, ids: Seq<u128>, fetches: nat, k: int)
    requires
        increasing(ids),
        !state.finished,
        state.limit >= 1,
        0 <= k <= ids.len(),
        rank(ids, state.cursor) == k,
        fetches > ids.len() - k,
    ensures
        visited(state, ids, fetches) == ids.subrange(k, ids.len() as int),
        state_after(state, ids, fetches).finished,
    decreases fetches,
{
    let page = page_of(ids, state.cursor, state.limit as nat);
    let next = state.after_page(page);
    if page.len() < state.limit {
        assert(page =~= ids.subrange(k, ids.len() as int));
        assert(visited(next, ids, (fetches - 1) as nat) =~= Seq::<u128>::empty());
        assert(state_after(next, ids, (fetches - 1) as nat) == next);
        assert(visited(state, ids, fetches) =~= ids.subrange(k, ids.len() as int));
    } else {
        let end = k + state.limit;
        assert(page =~= ids.subrange(k, end));
        assert(page.last() == ids[end - 1]);
        lemma_rank_of_member(ids, end - 1);
        lemma_visits_rest(next, ids, (fetches - 1) as nat, end);
        assert(page + ids.subrange(end, ids.len() as int) =~= ids.subrange(k, ids.len() as int));
    }
}

/// Pagination is complete. Against a server whose vertices have the
/// identifiers `ids`, in increasing order, a traversal in pages of any size
/// visits every vertex exactly once, in increasing order of identifier, and is
/// over when a page comes back short of the page size; one fetch more than
/// there are vertices is always enough.
pub proof fn lemma_pagination_complete(
    query_limit: u32,
    t: Option<Seq<char>>,
    ids: Seq<u128>,
    fetches: nat,
)
    requires
        increasing(ids),
        fetches > ids.len(),
    ensures
        visited(TraversalView::initial(query_limit, t), ids, fetches) == ids,
        state_after(TraversalView::initial(query_limit, t), ids, fetches).finished,
        state_after(TraversalView::initial(query_limit, t), ids, fetches).next_query(false) is None,
{
    lemma_visits_rest(TraversalView::initial(query_limit, t), ids, fetches, 0);
    assert(ids.subrange(0, ids.len() as int) =~= ids);
}

/// A traversal that stands behind the first `k` identifiers is over after
/// one fetch more than whole pages are left, and not before.
proof fn lemma_fetches_from(state: TraversalView, ids: Seq<u128>, fetches: nat, k: int)
    requires
        increasing(ids),
        !state.finished,
        state.limit >= 1,
        0 <= k <= ids.len(),
        rank(ids, state.cursor) == k,
    ensures
        state_after(state, ids, fetches).finished <==> fetches > (ids.len() - k)
            / state.limit as int,
    decreases fetches,
{
    let left = ids.len() - k;
    let size = state.limit as int;
    if fetches == 0 {
        assert(left / size >= 0) by (nonlinear_arith)
            requires
                left >= 0,
                size >= 1,
        ;
    } else {
        let page = page_of(ids, state.cursor, state.limit as nat);
        let next = state.after_page(page);
        if left < size {
            assert(left / size == 0) by (nonlinear_arith)
                requires
                    0 <= left < size,
            ;
            assert(page =~= ids.subrange(k, ids.len() as int));
            assert(state_after(next, ids, (fetches - 1) as nat) == next);
        } else {
            assert((left - size) / size == left / size - 1) by (nonlinear_arith)
                requires
                    left >= size,
                    size >= 1,
            ;
            let end = k + size;
            assert(page =~= ids.subrange(k, end));
            assert(page.last() == ids[end - 1]);
            lemma_rank_of_member(ids, end - 1);
            lemma_fetches_from(next, ids, (fetches - 1) as nat, end);
        }
    }
}

/// The number of fetches is exact. Against a server whose vertices have the
/// identifiers `ids`, in increasing order, a traversal in pages of `P` is over
/// after as many fetches as `ids` fill whole pages and one more, and not
/// before: a last page that is full costs one fetch that comes back empty.
pub proof fn lemma_fetch_count(
    query_limit: u32,
    t: Option<Seq<char>>,
    ids: Seq<u128>,
    fetches: nat,
)
    requires
        increasing(ids),
    ensures
        state_after(TraversalView::initial(query_limit, t), ids, fetches).finished <==> fetches
            > ids.len() / (spec_page_limit(query_limit) as nat),
{
    lemma_fetches_from(TraversalView::initial(query_limit, t), ids, fetches, 0);
}

/// Of the failures recorded in an empty slot, the first is the one that
/// stays: later ones are discarded.
pub proof fn lemma_first_failure_wins<E>(failures: Seq<E>)
    requires
        failures.len() > 0,
    ensures
        recorded_all(None, failures) == Some(failures[0]),
{
    lemma_set_slot_stays(Some(failures[0]), failures.skip(1));
}

/// A slot that holds a failure holds it whatever is recorded afterwards.
pub proof fn lemma_set_slot_stays<E>(slot: Option<E>, failures: Seq<E>)
    requires
        slot is Some,
    ensures
        recorded_all(slot, failures) == slot,
    decreases failures.len(),
{
    if failures.len() > 0 {
        lemma_set_slot_stays(slot, failures.skip(1));
    }
}

/// A failure short-circuits the traversal. Once a failure has been recorded,
/// no page is fetched in any state, whatever is recorded afterwards, and the
/// traversal resolves with the first failure recorded.
pub proof fn lemma_failure_short_circuits<E>(
    state: TraversalView,
    first: E,
    later: Seq<E>,
)
    ensures
        recorded_all(recorded(None, first), later) == Some(first),
        state.next_query(recorded_all(recorded(None, first), later) is Some) is None,
{
    lemma_set_slot_stays(Some(first), later);
}

} // verus!
