//! The expansion of the roots of a query into a subgraph.
//!
//! The store answers which records lie at the other end of the edges of one
//! kind at one record. This module decides which questions to ask and what
//! to make of the answers: it starts from the roots, follows the edges of
//! every kind as far as the query allows, and collects the records and the
//! edges it meets. A record is taken up once; an edge that leads to a record
//! that is already there is still recorded.
//!
//! The questions are asked in the order in which they are raised: those of
//! the roots first, then those of the records that the answers bring in.
//! Each hop along an edge of some kind and direction uses up one unit of the
//! depth of that kind and direction, and of no other.

use crate::edges::{slot, slot_spec, Direction, EdgeKind, GraphResolveDepths, SLOTS};
use crate::identifier::{VersionedUri, VersionedUriModel};
use vstd::prelude::*;

verus! {

/// An edge of a subgraph.
#[derive(Debug, PartialEq, Eq)]
pub struct Edge {
    pub source: VersionedUri,
    pub kind: EdgeKind,
    pub direction: Direction,
    pub target: VersionedUri,
}

/// An edge of a subgraph, as a mathematical value.
pub struct EdgeModel {
    pub source: VersionedUriModel,
    pub kind: EdgeKind,
    pub direction: Direction,
    pub target: VersionedUriModel,
}

impl View for Edge {
    type V = EdgeModel;

    open spec fn view(&self) -> EdgeModel {
        EdgeModel {
            source: self.source@,
            kind: self.kind,
            direction: self.direction,
            target: self.target@,
        }
    }
}

/// A question to the store: which records lie at the other end of the edges
/// of `kind` that leave or reach `vertex`.
#[derive(Debug, PartialEq, Eq)]
pub struct EdgeRequest {
    pub vertex: VersionedUri,
    pub kind: EdgeKind,
    pub direction: Direction,
    /// How far the edges are followed from the records that answer.
    pub remaining: GraphResolveDepths,
}

/// A question to the store, as a mathematical value.
pub struct RequestModel {
    pub vertex: VersionedUriModel,
    pub kind: EdgeKind,
    pub direction: Direction,
    pub remaining: GraphResolveDepths,
}

impl View for EdgeRequest {
    type V = RequestModel;

    open spec fn view(&self) -> RequestModel {
        RequestModel {
            vertex: self.vertex@,
            kind: self.kind,
            direction: self.direction,
            remaining: self.remaining,
        }
    }
}

/// The models of a list of identifiers.
pub open spec fn ids(list: Seq<VersionedUri>) -> Seq<VersionedUriModel> {
    Seq::new(list.len(), |i: int| list[i]@)
}

/// The models of a list of edges.
pub open spec fn edge_models(list: Seq<Edge>) -> Seq<EdgeModel> {
    Seq::new(list.len(), |i: int| list[i]@)
}

/// The models of a list of questions.
pub open spec fn request_models(list: Seq<EdgeRequest>) -> Seq<RequestModel> {
    Seq::new(list.len(), |i: int| list[i]@)
}

/// The questions that a record raises under the given depths, for the first
/// `upto` pairs of an edge kind and a direction: one for each pair whose
/// depth is not zero, in the order of the pairs.
pub open spec fn requests_upto(
    vertex: VersionedUriModel,
    depths: GraphResolveDepths,
    upto: int,
) -> Seq<RequestModel>
    decreases upto,
{
    if upto <= 0 {
        Seq::empty()
    } else {
        let before = requests_upto(vertex, depths, upto - 1);
        let (kind, direction) = slot_spec(upto - 1);
        if depths.get(kind, direction) > 0 {
            before.push(
                RequestModel { vertex, kind, direction, remaining: depths.after(kind, direction) },
            )
        } else {
            before
        }
    }
}

/// The questions that a record raises under the given depths.
pub open spec fn requests_for(vertex: VersionedUriModel, depths: GraphResolveDepths) -> Seq<
    RequestModel,
> {
    requests_upto(vertex, depths, SLOTS as int)
}

/// The list with `item` at its end, unless the list holds it already.
pub open spec fn with_item<A>(list: Seq<A>, item: A) -> Seq<A> {
    if list.contains(item) {
        list
    } else {
        list.push(item)
    }
}

/// The state of an expansion, as a mathematical value.
pub struct TraversalModel {
    /// The records that matched the filter.
    pub roots: Seq<VersionedUriModel>,
    /// The records met so far, the roots among them.
    pub vertices: Seq<VersionedUriModel>,
    /// The edges met so far.
    pub edges: Seq<EdgeModel>,
    /// The questions raised so far, in the order in which they are asked.
    pub requests: Seq<RequestModel>,
    /// The number of questions that have been answered.
    pub answered: int,
}

impl TraversalModel {
    /// Taking up a record under the depths that are left at it: a record
    /// that is there already changes nothing, a new one is added and raises
    /// its questions.
    pub open spec fn discover(self, vertex: VersionedUriModel, depths: GraphResolveDepths) -> TraversalModel {
        if self.vertices.contains(vertex) {
            self
        } else {
            TraversalModel {
                vertices: self.vertices.push(vertex),
                requests: self.requests + requests_for(vertex, depths),
                ..self
            }
        }
    }

    /// Taking up a root.
    pub open spec fn root(self, vertex: VersionedUriModel, depths: GraphResolveDepths) -> TraversalModel {
        TraversalModel { roots: with_item(self.roots, vertex), ..self }.discover(vertex, depths)
    }

    /// Taking up one record of the answer to a question: the edge to it is
    /// recorded and the record is taken up.
    pub open spec fn visit(self, request: RequestModel, target: VersionedUriModel) -> TraversalModel {
        let edge = EdgeModel {
            source: request.vertex,
            kind: request.kind,
            direction: request.direction,
            target,
        };
        TraversalModel { edges: with_item(self.edges, edge), ..self }.discover(
            target,
            request.remaining,
        )
    }

    /// Taking up the records of the answer to a question, in order.
    pub open spec fn visit_all(self, request: RequestModel, targets: Seq<VersionedUriModel>) -> TraversalModel
        decreases targets.len(),
    {
        if targets.len() == 0 {
            self
        } else {
            self.visit_all(request, targets.drop_last()).visit(request, targets.last())
        }
    }

    /// Whether every question has been answered.
    pub open spec fn finished(self) -> bool {
        self.answered >= self.requests.len()
    }

    /// The question that is to be asked next.
    pub open spec fn pending(self) -> RequestModel {
        self.requests[self.answered]
    }

    /// Taking the answer to the pending question. Where no question is
    /// pending, the answer changes nothing.
    pub open spec fn provided(self, targets: Seq<VersionedUriModel>) -> TraversalModel {
        if self.finished() || self.answered < 0 {
            self
        } else {
            TraversalModel {
                answered: self.answered + 1,
                ..self.visit_all(self.pending(), targets)
            }
        }
    }

    /// The state before any root has been taken up.
    pub open spec fn empty() -> TraversalModel {
        TraversalModel {
            roots: Seq::empty(),
            vertices: Seq::empty(),
            edges: Seq::empty(),
            requests: Seq::empty(),
            answered: 0,
        }
    }

    /// The state after the roots have been taken up, in order.
    pub open spec fn started(roots: Seq<VersionedUriModel>, depths: GraphResolveDepths) -> TraversalModel
        decreases roots.len(),
    {
        if roots.len() == 0 {
            Self::empty()
        } else {
            Self::started(roots.drop_last(), depths).root(roots.last(), depths)
        }
    }

    /// No record and no edge stands twice, the ends of every edge and the
    /// roots are among the records, and every question is about a record
    /// that is there.
    pub open spec fn well_formed(self) -> bool {
        &&& self.vertices.no_duplicates()
        &&& self.edges.no_duplicates()
        &&& self.roots.no_duplicates()
        &&& 0 <= self.answered <= self.requests.len()
        &&& forall|i: int|
            0 <= i < self.roots.len() ==> self.vertices.contains(#[trigger] self.roots[i])
        &&& forall|i: int|
            0 <= i < self.edges.len() ==> self.vertices.contains((#[trigger] self.edges[i]).source)
                && self.vertices.contains(self.edges[i].target)
        &&& forall|i: int|
            0 <= i < self.requests.len() ==> self.vertices.contains(
                (#[trigger] self.requests[i]).vertex,
            )
    }
}

/// The result of a query: the records that matched, every record met, and
/// the edges between them. No record and no edge stands twice.
#[derive(Debug, PartialEq, Eq)]
pub struct Subgraph {
    pub roots: Vec<VersionedUri>,
    pub vertices: Vec<VersionedUri>,
    pub edges: Vec<Edge>,
}

/// The state of an expansion.
#[derive(Debug, PartialEq, Eq)]
pub struct Traversal {
    roots: Vec<VersionedUri>,
    vertices: Vec<VersionedUri>,
    edges: Vec<Edge>,
    requests: Vec<EdgeRequest>,
    answered: usize,
}

impl View for Traversal {
    type V = TraversalModel;

    closed spec fn view(&self) -> TraversalModel {
        TraversalModel {
            roots: ids(self.roots@),
            vertices: ids(self.vertices@),
            edges: edge_models(self.edges@),
            requests: request_models(self.requests@),
            answered: self.answered as int,
        }
    }
}

/// Whether a list holds an identifier.
fn contains_id(list: &Vec<VersionedUri>, id: &VersionedUri) -> (found: bool)
    ensures
        found == ids(list@).contains(id@),
{
    let mut index: usize = 0;
    while index < list.len()
        invariant
            index <= list.len(),
            forall|at: int| 0 <= at < index ==> ids(list@)[at] != id@,
        decreases list.len() - index,
    {
        if list[index].same(id) {
            assert(ids(list@)[index as int] == id@);
            return true;
        }
        index += 1;
    }
    false
}

/// Whether a list holds the edge from `source` to `target`.
fn contains_edge(
    list: &Vec<Edge>,
    source: &VersionedUri,
    kind: EdgeKind,
    direction: Direction,
    target: &VersionedUri,
) -> (found: bool)
    ensures
        found == edge_models(list@).contains(
            EdgeModel { source: source@, kind, direction, target: target@ },
        ),
{
    let ghost edge = EdgeModel { source: source@, kind, direction, target: target@ };
    let mut index: usize = 0;
    while index < list.len()
        invariant
            index <= list.len(),
            edge == (EdgeModel { source: source@, kind, direction, target: target@ }),
            forall|at: int| 0 <= at < index ==> edge_models(list@)[at] != edge,
        decreases list.len() - index,
    {
        let candidate = &list[index];
        if candidate.kind == kind && candidate.direction == direction && candidate.source.same(
            source,
        ) && candidate.target.same(target) {
            assert(edge_models(list@)[index as int] == edge);
            return true;
        }
        index += 1;
    }
    false
}

/// Raises the questions of a record.
fn raise(requests: &mut Vec<EdgeRequest>, vertex: &VersionedUri, depths: GraphResolveDepths)
    ensures
        request_models(final(requests)@) == request_models(old(requests)@) + requests_for(
            vertex@,
            depths,
        ),
{
    let ghost before = request_models(requests@);
    let mut index: u8 = 0;
    proof {
        assert(request_models(requests@) =~= before + requests_upto(vertex@, depths, 0));
    }
    while index < SLOTS
        invariant
            index <= SLOTS,
            request_models(requests@) == before + requests_upto(vertex@, depths, index as int),
        decreases SLOTS - index,
    {
        let ghost current = request_models(requests@);
        let (kind, direction) = slot(index);
        if depths.depth(kind, direction) > 0 {
            let request = EdgeRequest {
                vertex: vertex.to_owned(),
                kind,
                direction,
                remaining: depths.decrement(kind, direction),
            };
            requests.push(request);
            proof {
                assert(request_models(requests@) =~= current.push(request@));
                assert(current.push(request@) =~= before + requests_upto(
                    vertex@,
                    depths,
                    index + 1,
                ));
            }
        }
        index += 1;
    }
}

impl Traversal {
    /// Takes up a record under the depths that are left at it.
    fn discover(&mut self, vertex: VersionedUri, depths: GraphResolveDepths)
        ensures
            final(self)@ == old(self)@.discover(vertex@, depths),
    {
        if !contains_id(&self.vertices, &vertex) {
            let ghost before = ids(self.vertices@);
            raise(&mut self.requests, &vertex, depths);
            self.vertices.push(vertex);
            proof {
                assert(ids(self.vertices@) =~= before.push(vertex@));
            }
        }
    }

    /// Starts an expansion at the roots of a query.
    ///
    /// Every root is taken up, once, and raises a question for each kind of
    /// edge and direction that the depths let it follow.
    pub fn start(roots: Vec<VersionedUri>, depths: GraphResolveDepths) -> (traversal: Traversal)
        ensures
            traversal@ == TraversalModel::started(ids(roots@), depths),
    {
        let ghost all = ids(roots@);
        let mut traversal = Traversal {
            roots: Vec::new(),
            vertices: Vec::new(),
            edges: Vec::new(),
            requests: Vec::new(),
            answered: 0,
        };
        proof {
            assert(all.take(0) =~= Seq::empty());
            assert(traversal@.roots =~= Seq::empty());
            assert(traversal@.vertices =~= Seq::empty());
            assert(traversal@.edges =~= Seq::empty());
            assert(traversal@.requests =~= Seq::empty());
        }
        for root in iter: roots
            invariant
                iter.seq() == roots@,
                all == ids(roots@),
                traversal@ == TraversalModel::started(all.take(iter.index() as int), depths),
        {
            let ghost index = iter.index() as int;
            proof {
                assert(all.take(index + 1).drop_last() =~= all.take(index));
                assert(all.take(index + 1).last() == root@);
            }
            if !contains_id(&traversal.roots, &root) {
                let ghost before = ids(traversal.roots@);
                traversal.roots.push(root.to_owned());
                proof {
                    assert(ids(traversal.roots@) =~= before.push(root@));
                }
            }
            traversal.discover(root, depths);
        }
        proof {
            assert(all.take(roots.len() as int) =~= all);
        }
        traversal
    }

    /// The question that is to be asked next, until every question has been
    /// answered.
    pub fn next_request(&self) -> (request: Option<&EdgeRequest>)
        ensures
            self@.finished() ==> request is None,
            !self@.finished() ==> request is Some && request->Some_0@ == self@.pending(),
    {
        if self.answered < self.requests.len() {
            Some(&self.requests[self.answered])
        } else {
            None
        }
    }

    /// Takes the answer to the question that `next_request` gave: the
    /// records at the other end of the edges asked about.
    ///
    /// For each record of the answer the edge to it is recorded, if it is
    /// new; the record is taken up, if it is new, and raises its own
    /// questions under the depths that are left. Where no question was
    /// pending, nothing changes.
    pub fn provide(&mut self, targets: Vec<VersionedUri>)
        ensures
            final(self)@ == old(self)@.provided(ids(targets@)),
    {
        if self.answered >= self.requests.len() {
            return ;
        }
        let ghost start = self@;
        let ghost all = ids(targets@);
        let ghost pending = self@.pending();
        let source = self.requests[self.answered].vertex.to_owned();
        let kind = self.requests[self.answered].kind;
        let direction = self.requests[self.answered].direction;
        let remaining = self.requests[self.answered].remaining;
        proof {
            assert(all.take(0) =~= Seq::empty());
        }
        for target in iter: targets
            invariant
                iter.seq() == targets@,
                all == ids(targets@),
                pending == (RequestModel { vertex: source@, kind, direction, remaining }),
                self@ == start.visit_all(pending, all.take(iter.index() as int)),
                self.answered == start.answered,
                start.answered < start.requests.len(),
        {
            let ghost index = iter.index() as int;
            proof {
                assert(all.take(index + 1).drop_last() =~= all.take(index));
                assert(all.take(index + 1).last() == target@);
            }
            if !contains_edge(&self.edges, &source, kind, direction, &target) {
                let ghost before = edge_models(self.edges@);
                let edge = Edge { source: source.to_owned(), kind, direction, target: target.to_owned() };
                self.edges.push(edge);
                proof {
                    assert(edge_models(self.edges@) =~= before.push(edge@));
                }
            }
            self.discover(target, remaining);
        }
        proof {
            assert(all.take(targets.len() as int) =~= all);
            lemma_visit_all_requests(start, pending, all);
        }
        self.answered = self.answered + 1;
    }

    /// Whether every question has been answered.
    pub fn is_finished(&self) -> (finished: bool)
        ensures
            finished == self@.finished(),
    {
        self.answered >= self.requests.len()
    }

    /// The subgraph that the expansion has collected.
    pub fn finish(self) -> (subgraph: Subgraph)
        ensures
            ids(subgraph.roots@) == self@.roots,
            ids(subgraph.vertices@) == self@.vertices,
            edge_models(subgraph.edges@) == self@.edges,
    {
        Subgraph { roots: self.roots, vertices: self.vertices, edges: self.edges }
    }
}

/// Taking up records raises questions and answers none: the questions raised
/// before stay where they are.
pub proof fn lemma_visit_all_requests(
    state: TraversalModel,
    request: RequestModel,
    targets: Seq<VersionedUriModel>,
)
    ensures
        state.visit_all(request, targets).answered == state.answered,
        state.visit_all(request, targets).roots == state.roots,
        state.visit_all(request, targets).requests.len() >= state.requests.len(),
        forall|i: int|
            0 <= i < state.requests.len() ==> state.visit_all(request, targets).requests[i]
                == state.requests[i],
    decreases targets.len(),
{
    if targets.len() > 0 {
        lemma_visit_all_requests(state, request, targets.drop_last());
    }
}

/// Under depths that are all zero a record raises no question.
pub proof fn lemma_no_requests(vertex: VersionedUriModel, upto: int)
    ensures
        requests_upto(vertex, GraphResolveDepths::none(), upto) == Seq::<RequestModel>::empty(),
    decreases upto,
{
    if upto > 0 {
        lemma_no_requests(vertex, upto - 1);
    }
}

/// Every question that a record raises is about that record.
pub proof fn lemma_requests_vertex(vertex: VersionedUriModel, depths: GraphResolveDepths, upto: int)
    ensures
        forall|i: int|
            0 <= i < requests_upto(vertex, depths, upto).len() ==> (#[trigger] requests_upto(
                vertex,
                depths,
                upto,
            )[i]).vertex == vertex,
    decreases upto,
{
    if upto > 0 {
        lemma_requests_vertex(vertex, depths, upto - 1);
    }
}

/// A query whose depths are all zero follows no edge: the expansion is
/// finished as soon as it has started, its records are exactly the roots,
/// each once, and it has no edge.
pub proof fn lemma_no_depth(roots: Seq<VersionedUriModel>)
    ensures
        TraversalModel::started(roots, GraphResolveDepths::none()).finished(),
        TraversalModel::started(roots, GraphResolveDepths::none()).requests.len() == 0,
        TraversalModel::started(roots, GraphResolveDepths::none()).edges.len() == 0,
        TraversalModel::started(roots, GraphResolveDepths::none()).answered == 0,
        TraversalModel::started(roots, GraphResolveDepths::none()).vertices
            == TraversalModel::started(roots, GraphResolveDepths::none()).roots,
        TraversalModel::started(roots, GraphResolveDepths::none()).vertices.no_duplicates(),
        forall|id: VersionedUriModel|
            #![trigger TraversalModel::started(roots, GraphResolveDepths::none()).vertices.contains(id)]
            #![trigger roots.contains(id)]
            TraversalModel::started(roots, GraphResolveDepths::none()).vertices.contains(id)
                <==> roots.contains(id),
    decreases roots.len(),
{
    let none = GraphResolveDepths::none();
    let state = TraversalModel::started(roots, none);
    if roots.len() > 0 {
        let before = TraversalModel::started(roots.drop_last(), none);
        lemma_no_depth(roots.drop_last());
        lemma_no_requests(roots.last(), SLOTS as int);
        assert(before.requests + Seq::<RequestModel>::empty() =~= before.requests);
        assert forall|id: VersionedUriModel| state.vertices.contains(id) <==> roots.contains(
            id,
        ) by {
            if roots.contains(id) {
                let at = choose|at: int| 0 <= at < roots.len() && roots[at] == id;
                if at < roots.len() - 1 {
                    assert(roots.drop_last()[at] == id);
                    assert(before.vertices.contains(id));
                    let place = choose|place: int|
                        0 <= place < before.vertices.len() && before.vertices[place] == id;
                    assert(state.vertices[place] == id);
                } else {
                    if !before.vertices.contains(id) {
                        assert(state.vertices[state.vertices.len() - 1] == id);
                    }
                }
            }
            if state.vertices.contains(id) {
                let place = choose|place: int|
                    0 <= place < state.vertices.len() && state.vertices[place] == id;
                if place < before.vertices.len() {
                    assert(before.vertices[place] == id);
                    assert(before.vertices.contains(id));
                    let at = choose|at: int|
                        0 <= at < roots.drop_last().len() && roots.drop_last()[at] == id;
                    assert(roots[at] == id);
                } else {
                    assert(roots[roots.len() - 1] == id);
                }
            }
        }
    }
}

/// Taking up a record keeps a state well formed.
pub proof fn lemma_discover_well_formed(
    state: TraversalModel,
    vertex: VersionedUriModel,
    depths: GraphResolveDepths,
)
    requires
        state.well_formed(),
    ensures
        state.discover(vertex, depths).well_formed(),
        state.discover(vertex, depths).vertices.contains(vertex),
        forall|id: VersionedUriModel|
            state.vertices.contains(id) ==> state.discover(vertex, depths).vertices.contains(id),
{
    let next = state.discover(vertex, depths);
    assert forall|id: VersionedUriModel| state.vertices.contains(id) implies next.vertices.contains(
        id,
    ) by {
        let place = choose|place: int| 0 <= place < state.vertices.len() && state.vertices[place] == id;
        assert(next.vertices[place] == id);
    }
    if !state.vertices.contains(vertex) {
        assert(next.vertices[next.vertices.len() - 1] == vertex);
        lemma_requests_vertex(vertex, depths, SLOTS as int);
        assert forall|i: int| 0 <= i < next.requests.len() implies next.vertices.contains(
            (#[trigger] next.requests[i]).vertex,
        ) by {
            if i < state.requests.len() {
                assert(next.requests[i] == state.requests[i]);
            } else {
                assert(next.requests[i] == requests_for(vertex, depths)[i - state.requests.len()]);
            }
        }
    }
}

/// Taking up a record of an answer keeps a state well formed.
pub proof fn lemma_visit_well_formed(
    state: TraversalModel,
    request: RequestModel,
    target: VersionedUriModel,
)
    requires
        state.well_formed(),
        state.vertices.contains(request.vertex),
    ensures
        state.visit(request, target).well_formed(),
        forall|id: VersionedUriModel|
            state.vertices.contains(id) ==> state.visit(request, target).vertices.contains(id),
{
    let edge = EdgeModel {
        source: request.vertex,
        kind: request.kind,
        direction: request.direction,
        target,
    };
    let recorded = TraversalModel { edges: with_item(state.edges, edge), ..state };
    lemma_discover_well_formed(state, target, request.remaining);
    let next = recorded.discover(target, request.remaining);
    assert(next.vertices == state.discover(target, request.remaining).vertices);
    assert(next.requests == state.discover(target, request.remaining).requests);
    assert forall|i: int| 0 <= i < next.edges.len() implies next.vertices.contains(
        (#[trigger] next.edges[i]).source,
    ) && next.vertices.contains(next.edges[i].target) by {
        if i < state.edges.len() {
            assert(next.edges[i] == state.edges[i]);
        }
    }
}

/// Taking up the records of an answer keeps a state well formed.
pub proof fn lemma_visit_all_well_formed(
    state: TraversalModel,
    request: RequestModel,
    targets: Seq<VersionedUriModel>,
)
    requires
        state.well_formed(),
        state.vertices.contains(request.vertex),
    ensures
        state.visit_all(request, targets).well_formed(),
        forall|id: VersionedUriModel|
            state.vertices.contains(id) ==> state.visit_all(request, targets).vertices.contains(
                id,
            ),
    decreases targets.len(),
{
    if targets.len() > 0 {
        lemma_visit_all_well_formed(state, request, targets.drop_last());
        lemma_visit_well_formed(
            state.visit_all(request, targets.drop_last()),
            request,
            targets.last(),
        );
    }
}

/// An expansion is well formed when it starts and stays so with every
/// answer: no record and no edge stands twice, and the roots and the ends of
/// every edge are among the records.
pub proof fn lemma_well_formed(
    roots: Seq<VersionedUriModel>,
    depths: GraphResolveDepths,
    state: TraversalModel,
    targets: Seq<VersionedUriModel>,
)
    ensures
        TraversalModel::started(roots, depths).well_formed(),
        state.well_formed() ==> state.provided(targets).well_formed(),
    decreases roots.len(),
{
    if roots.len() > 0 {
        let before = TraversalModel::started(roots.drop_last(), depths);
        lemma_well_formed(roots.drop_last(), depths, state, targets);
        let rooted = TraversalModel { roots: with_item(before.roots, roots.last()), ..before };
        lemma_discover_well_formed(before, roots.last(), depths);
        let next = rooted.discover(roots.last(), depths);
        assert(next.vertices == before.discover(roots.last(), depths).vertices);
        assert(next.requests == before.discover(roots.last(), depths).requests);
        assert forall|i: int| 0 <= i < next.roots.len() implies next.vertices.contains(
            #[trigger] next.roots[i],
        ) by {
            if i < before.roots.len() {
                assert(next.roots[i] == before.roots[i]);
            }
        }
    }
    if state.well_formed() && !state.finished() {
        lemma_visit_all_well_formed(state, state.pending(), targets);
        lemma_visit_all_requests(state, state.pending(), targets);
    }
}

} // verus!
