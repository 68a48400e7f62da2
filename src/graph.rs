//! Nodes, the links between them, and the arena that owns every node of a
//! graph. A node is addressed by an `ANode` handle, so links may point back to
//! their own node or to any other, and the whole graph is freed at once. A
//! well-formed graph (`Graph::wf`) has every link lead to one of its own nodes;
//! every operation on a graph keeps it so.
use vstd::prelude::*;
use crate::capability::{Func, Guard};

verus! {

/// A handle to a node of a `Graph`.
pub struct ANode {
    index: usize,
}

impl ANode {
    /// The position of the node in its graph.
    pub closed spec fn id(&self) -> int {
        self.index as int
    }

    /// Adds an empty node, with no value and no links, to `graph`.
    pub fn new<T, I, R, C>(graph: &mut Graph<T, I, R, C>) -> (r: ANode)
        requires
            old(graph).wf(),
        ensures
            final(graph).wf(),
            final(graph).nodes() == old(graph).nodes().push(final(graph).nodes().last()),
            final(graph).nodes().last().attached() == None::<T>,
            final(graph).nodes().last().outgoing().len() == 0,
            r.id() == old(graph).nodes().len(),
            old(graph).untargeted(r),
    {
        graph.add(Node::new())
    }

    /// Adds a node that carries `value`, and no links, to `graph`.
    pub fn from<T, I, R, C>(graph: &mut Graph<T, I, R, C>, value: T) -> (r: ANode)
        requires
            old(graph).wf(),
        ensures
            final(graph).wf(),
            final(graph).nodes() == old(graph).nodes().push(final(graph).nodes().last()),
            final(graph).nodes().last().attached() == Some(value),
            final(graph).nodes().last().outgoing().len() == 0,
            r.id() == old(graph).nodes().len(),
            old(graph).untargeted(r),
    {
        graph.add(Node::from(value))
    }

    /// Another handle to the same node.
    pub fn clone(&self) -> (r: ANode)
        ensures
            r == *self,
    {
        ANode { index: self.index }
    }
}

/// Adds an empty node to `graph` (shorthand for `ANode::new`).
pub fn node<T, I, R, C>(graph: &mut Graph<T, I, R, C>) -> (r: ANode)
    requires
        old(graph).wf(),
    ensures
        final(graph).wf(),
        final(graph).nodes() == old(graph).nodes().push(final(graph).nodes().last()),
        final(graph).nodes().last().attached() == None::<T>,
        final(graph).nodes().last().outgoing().len() == 0,
        r.id() == old(graph).nodes().len(),
        old(graph).untargeted(r),
{
    ANode::new(graph)
}

/// The handle a link stores for an optional destination.
pub open spec fn target(destination: Option<&ANode>) -> Option<ANode> {
    match destination {
        Some(d) => Some(*d),
        None => None,
    }
}

/// What a link runs when it fires.
#[verifier::reject_recursive_types(I)]
#[verifier::reject_recursive_types(R)]
#[verifier::reject_recursive_types(C)]
pub enum Work<I, R, C> {
    /// A process whose value is the step's result.
    Function(Func<I, R, C>),
    /// A process run for its effect on the context only; the step has no result.
    Effect(Func<I, (), C>),
    /// Nothing runs; the step has no result.
    Idle,
}

/// A directed edge: a condition, what runs when it fires, and an optional
/// destination (none means the cursor stays on the node).
#[verifier::reject_recursive_types(I)]
#[verifier::reject_recursive_types(R)]
#[verifier::reject_recursive_types(C)]
pub struct Link<I, R, C> {
    condition: Guard<I, C>,
    work: Work<I, R, C>,
    destination: Option<ANode>,
}

impl<I, R, C> Link<I, R, C> {
    pub closed spec fn guard(&self) -> Guard<I, C> {
        self.condition
    }

    pub closed spec fn work(&self) -> Work<I, R, C> {
        self.work
    }

    pub closed spec fn destination(&self) -> Option<ANode> {
        self.destination
    }

    /// Whether the link fires on `input` in `context`.
    pub open spec fn fires(&self, input: I, context: C) -> bool {
        self.guard().holds(input, context)
    }

    /// The result of a step that takes this link.
    pub open spec fn output(&self, input: I, context: C) -> Option<R> {
        match self.work() {
            Work::Function(p) => Some(p.result(input, context)),
            Work::Effect(_) => None,
            Work::Idle => None,
        }
    }

    /// The context after a step that takes this link.
    pub open spec fn effect(&self, input: I, context: C) -> C {
        match self.work() {
            Work::Function(p) => p.updated(input, context),
            Work::Effect(e) => e.updated(input, context),
            Work::Idle => context,
        }
    }

    /// Where a cursor on `here` stands after taking this link.
    pub open spec fn next_node(&self, here: ANode) -> ANode {
        match self.destination() {
            Some(d) => d,
            None => here,
        }
    }

    /// A link guarded by `condition` that runs `process` and yields its value.
    pub fn new(
        destination: Option<&ANode>,
        condition: Guard<I, C>,
        process: Func<I, R, C>,
    ) -> (r: Link<I, R, C>)
        ensures
            r.guard() == condition,
            r.work() == Work::Function(process),
            r.destination() == target(destination),
    {
        let destination = match destination {
            Some(d) => Some(d.clone()),
            None => None,
        };
        Link { condition, work: Work::Function(process), destination }
    }

    /// Where a cursor on `here` stands after taking this link.
    pub fn follow(&self, here: &ANode) -> (r: ANode)
        ensures
            r == self.next_node(*here),
    {
        match &self.destination {
            Some(d) => d.clone(),
            None => here.clone(),
        }
    }

    /// Evaluates the link's condition.
    pub fn condition(&self, input: &I, context: &C) -> (r: bool)
        ensures
            r == self.fires(*input, *context),
    {
        self.condition.check(input, context)
    }

    /// Runs what the link runs when it fires.
    pub fn process(&self, input: I, context: &mut C) -> (r: Option<R>)
        ensures
            r == self.output(input, *old(context)),
            *final(context) == self.effect(input, *old(context)),
    {
        match &self.work {
            Work::Function(p) => Some(p.run(input, context)),
            Work::Effect(e) => {
                e.run(input, context);
                None
            },
            Work::Idle => None,
        }
    }

    /// Replaces what the link runs with `fun`, whose value becomes the step's result.
    pub fn set_function(&mut self, fun: Func<I, R, C>)
        ensures
            final(self).work() == Work::Function(fun),
            final(self).guard() == old(self).guard(),
            final(self).destination() == old(self).destination(),
    {
        self.work = Work::Function(fun);
    }

    /// Replaces what the link runs with `fun`, run for its effect only.
    pub fn set_process(&mut self, fun: Func<I, (), C>)
        ensures
            final(self).work() == Work::<I, R, C>::Effect(fun),
            final(self).guard() == old(self).guard(),
            final(self).destination() == old(self).destination(),
    {
        self.work = Work::Effect(fun);
    }
}

/// The position of the first link of `links` that fires on `input` in
/// `context`, trying them in order; none when no link fires.
pub open spec fn first_fired<I, R, C>(links: Seq<Link<I, R, C>>, input: I, context: C) -> Option<int>
    decreases links.len(),
{
    if links.len() == 0 {
        None
    } else {
        match first_fired(links.drop_last(), input, context) {
            Some(k) => Some(k),
            None => if links.last().fires(input, context) {
                Some(links.len() - 1)
            } else {
                None
            },
        }
    }
}

/// `first_fired` picks the link that fires with no firing link before it.
pub proof fn lemma_first_fired<I, R, C>(links: Seq<Link<I, R, C>>, input: I, context: C)
    ensures
        match first_fired(links, input, context) {
            Some(k) => {
                &&& 0 <= k < links.len()
                &&& links[k].fires(input, context)
                &&& forall|j: int| 0 <= j < k ==> !(#[trigger] links[j]).fires(input, context)
            },
            None => forall|j: int| 0 <= j < links.len() ==> !(#[trigger] links[j]).fires(input, context),
        },
    decreases links.len(),
{
    if links.len() > 0 {
        let front = links.drop_last();
        lemma_first_fired(front, input, context);
        assert forall|j: int| 0 <= j < front.len() implies front[j] == links[j] by {}
    }
}

/// The first firing link is the unique one that fires with none before it.
pub proof fn lemma_first_fired_unique<I, R, C>(
    links: Seq<Link<I, R, C>>,
    input: I,
    context: C,
    k: int,
)
    requires
        0 <= k < links.len(),
        links[k].fires(input, context),
        forall|j: int| 0 <= j < k ==> !(#[trigger] links[j]).fires(input, context),
    ensures
        first_fired(links, input, context) == Some(k),
{
    lemma_first_fired(links, input, context);
    match first_fired(links, input, context) {
        Some(m) => {
            if m < k {
                assert(!links[m].fires(input, context));
            } else if k < m {
                assert(!links[k].fires(input, context));
            }
        },
        None => {
            assert(!links[k].fires(input, context));
        },
    }
}

/// `after` is `before` with one more link at the end, guarded by `condition`,
/// running `work`, towards `destination`.
pub open spec fn appended<I, R, C>(
    before: Seq<Link<I, R, C>>,
    after: Seq<Link<I, R, C>>,
    destination: Option<ANode>,
    condition: Guard<I, C>,
    work: Work<I, R, C>,
) -> bool {
    &&& after.len() == before.len() + 1
    &&& after.drop_last() == before
    &&& after.last().guard() == condition
    &&& after.last().work() == work
    &&& after.last().destination() == destination
}

/// Every link of `links` that has a destination leads to a position below `bound`.
pub open spec fn bounded<I, R, C>(links: Seq<Link<I, R, C>>, bound: int) -> bool {
    forall|k: int|
        0 <= k < links.len() ==> match (#[trigger] links[k]).destination() {
            Some(d) => 0 <= d.id() < bound,
            None => true,
        }
}

proof fn lemma_bounded_grows<I, R, C>(links: Seq<Link<I, R, C>>, bound: int, larger: int)
    requires
        bounded(links, bound),
        bound <= larger,
    ensures
        bounded(links, larger),
{
}

proof fn lemma_bounded_appended<I, R, C>(
    before: Seq<Link<I, R, C>>,
    after: Seq<Link<I, R, C>>,
    destination: Option<ANode>,
    condition: Guard<I, C>,
    work: Work<I, R, C>,
    bound: int,
)
    requires
        appended(before, after, destination, condition, work),
        bounded(before, bound),
        destination matches Some(d) ==> 0 <= d.id() < bound,
    ensures
        bounded(after, bound),
{
    assert forall|k: int| 0 <= k < after.len() - 1 implies after[k] == before[k] by {
        assert(after[k] == after.drop_last()[k]);
    }
}

/// Appending a link that produces a result.
pub trait Linkable<T, I, R, C> {
    /// The links that leave the node, in the order they are tried.
    spec fn outgoing(&self) -> Seq<Link<I, R, C>>;

    /// The value attached to the node.
    spec fn attached(&self) -> Option<T>;

    /// Appends a link that runs `process` and yields its value.
    fn link_function(
        &mut self,
        destination: Option<&ANode>,
        condition: Guard<I, C>,
        process: Func<I, R, C>,
    )
        ensures
            appended(
                old(self).outgoing(),
                final(self).outgoing(),
                target(destination),
                condition,
                Work::Function(process),
            ),
            final(self).attached() == old(self).attached(),
    ;
}

/// Appending links that produce no result.
pub trait LinkProcess<T, I, R, C>: Linkable<T, I, R, C> {
    /// Appends a link that runs `process` for its effect only.
    fn link_process(
        &mut self,
        destination: Option<&ANode>,
        condition: Guard<I, C>,
        process: Func<I, (), C>,
    )
        ensures
            appended(
                old(self).outgoing(),
                final(self).outgoing(),
                target(destination),
                condition,
                Work::<I, R, C>::Effect(process),
            ),
            final(self).attached() == old(self).attached(),
    ;

    /// Appends a pure transition, which runs nothing.
    fn link(&mut self, destination: Option<&ANode>, condition: Guard<I, C>)
        ensures
            appended(
                old(self).outgoing(),
                final(self).outgoing(),
                target(destination),
                condition,
                Work::<I, R, C>::Idle,
            ),
            final(self).attached() == old(self).attached(),
    ;
}

/// A state of the graph: an optional attached value and the links that leave it.
#[verifier::reject_recursive_types(I)]
#[verifier::reject_recursive_types(R)]
#[verifier::reject_recursive_types(C)]
pub struct Node<T, I, R, C> {
    value: Option<T>,
    links: Vec<Link<I, R, C>>,
}

impl<T, I, R, C> Node<T, I, R, C> {
    /// A node with no value and no links.
    pub fn new() -> (r: Node<T, I, R, C>)
        ensures
            r.attached() == None::<T>,
            r.outgoing().len() == 0,
    {
        Node { value: None, links: Vec::new() }
    }

    /// A node with the attached `value` and no links.
    pub fn from(value: T) -> (r: Node<T, I, R, C>)
        ensures
            r.attached() == Some(value),
            r.outgoing().len() == 0,
    {
        Node { value: Some(value), links: Vec::new() }
    }

    /// The attached value, if any.
    pub fn value(&self) -> (r: Option<&T>)
        ensures
            r == match self.attached() {
                Some(v) => Some(&v),
                None => None::<&T>,
            },
    {
        self.value.as_ref()
    }

    /// Tries the links in order and returns the position of the first whose
    /// condition holds on `input` in `context`.
    pub fn first_match(&self, input: &I, context: &C) -> (r: Option<usize>)
        ensures
            r matches Some(k) ==> first_fired(self.outgoing(), *input, *context) == Some(k as int),
            r is None ==> first_fired(self.outgoing(), *input, *context) is None,
    {
        let mut k: usize = 0;
        while k < self.links.len()
            invariant
                k <= self.links@.len(),
                forall|j: int| 0 <= j < k ==> !(#[trigger] self.links@[j]).fires(*input, *context),
            decreases self.links@.len() - k,
        {
            if self.links[k].condition(input, context) {
                proof {
                    lemma_first_fired_unique(self.links@, *input, *context, k as int);
                }
                return Some(k);
            }
            k += 1;
        }
        proof {
            lemma_first_fired(self.links@, *input, *context);
            if let Some(m) = first_fired(self.links@, *input, *context) {
                assert(!self.links@[m].fires(*input, *context));
            }
        }
        None
    }

    /// The links that leave the node, in the order they are tried.
    pub fn links(&self) -> (r: &Vec<Link<I, R, C>>)
        ensures
            r@ == self.outgoing(),
    {
        &self.links
    }

    /// The link at position `k`, to configure it after it was appended.
    pub fn link_mut(&mut self, k: usize) -> (r: &mut Link<I, R, C>)
        requires
            k < old(self).outgoing().len(),
        ensures
            *r == old(self).outgoing()[k as int],
            final(self).outgoing() == old(self).outgoing().update(k as int, *final(r)),
            final(self).attached() == old(self).attached(),
    {
        &mut self.links[k]
    }
}

impl<T, I, R, C> Linkable<T, I, R, C> for Node<T, I, R, C> {
    closed spec fn outgoing(&self) -> Seq<Link<I, R, C>> {
        self.links@
    }

    closed spec fn attached(&self) -> Option<T> {
        self.value
    }

    fn link_function(
        &mut self,
        destination: Option<&ANode>,
        condition: Guard<I, C>,
        process: Func<I, R, C>,
    ) {
        let link = Link::new(destination, condition, process);
        self.links.push(link);
        assert(self.links@.drop_last() =~= old(self).links@);
    }
}

impl<T, I, R, C> LinkProcess<T, I, R, C> for Node<T, I, R, C> {
    fn link_process(
        &mut self,
        destination: Option<&ANode>,
        condition: Guard<I, C>,
        process: Func<I, (), C>,
    ) {
        let destination = match destination {
            Some(d) => Some(d.clone()),
            None => None,
        };
        self.links.push(Link { condition, work: Work::Effect(process), destination });
        assert(self.links@.drop_last() =~= old(self).links@);
    }

    fn link(&mut self, destination: Option<&ANode>, condition: Guard<I, C>) {
        let destination = match destination {
            Some(d) => Some(d.clone()),
            None => None,
        };
        self.links.push(Link { condition, work: Work::Idle, destination });
        assert(self.links@.drop_last() =~= old(self).links@);
    }
}

/// The arena that owns the nodes of one graph.
#[verifier::reject_recursive_types(I)]
#[verifier::reject_recursive_types(R)]
#[verifier::reject_recursive_types(C)]
pub struct Graph<T, I, R, C> {
    nodes: Vec<Node<T, I, R, C>>,
}

impl<T, I, R, C> Graph<T, I, R, C> {
    /// The nodes, by handle.
    pub closed spec fn nodes(&self) -> Seq<Node<T, I, R, C>> {
        self.nodes@
    }

    /// Whether `at` names a node of this graph.
    pub open spec fn contains(&self, at: ANode) -> bool {
        0 <= at.id() < self.nodes().len()
    }

    /// The links that leave `at`; none for a handle outside the graph.
    pub open spec fn links_at(&self, at: ANode) -> Seq<Link<I, R, C>> {
        if self.contains(at) {
            self.nodes()[at.id()].outgoing()
        } else {
            Seq::empty()
        }
    }

    /// The value attached to `at`; none for a handle outside the graph.
    pub open spec fn value_at(&self, at: ANode) -> Option<T> {
        if self.contains(at) {
            self.nodes()[at.id()].attached()
        } else {
            None
        }
    }

    /// Every link leads to a node of this graph.
    pub open spec fn wf(&self) -> bool {
        forall|i: int|
            0 <= i < self.nodes().len() ==> bounded(
                #[trigger] self.nodes()[i].outgoing(),
                self.nodes().len() as int,
            )
    }

    /// No link of this graph leads to `at`.
    pub open spec fn untargeted(&self, at: ANode) -> bool {
        forall|from: ANode, k: int|
            self.contains(from) && 0 <= k < self.links_at(from).len() ==> (#[trigger] self.links_at(
                from,
            )[k]).destination() != Some(at)
    }

    /// Whether a link towards `destination` may be added: none, or a node of this graph.
    pub open spec fn admits(&self, destination: Option<&ANode>) -> bool {
        match target(destination) {
            Some(d) => self.contains(d),
            None => true,
        }
    }

    /// `self` is `before` with one more link at the end of node `from`'s links,
    /// and nothing else changed.
    pub open spec fn grown(
        &self,
        before: Graph<T, I, R, C>,
        from: ANode,
        destination: Option<ANode>,
        condition: Guard<I, C>,
        work: Work<I, R, C>,
    ) -> bool {
        &&& self.nodes() == before.nodes().update(from.id(), self.nodes()[from.id()])
        &&& appended(before.links_at(from), self.links_at(from), destination, condition, work)
        &&& self.value_at(from) == before.value_at(from)
    }

    /// `self` is `before` with the link at position `k` of node `at` running
    /// `work`, and nothing else changed.
    pub open spec fn reconfigured(&self, before: Graph<T, I, R, C>, at: ANode, k: int, work: Work<I, R, C>) -> bool {
        &&& self.nodes() == before.nodes().update(at.id(), self.nodes()[at.id()])
        &&& self.links_at(at) == before.links_at(at).update(k, self.links_at(at)[k])
        &&& self.links_at(at)[k].work() == work
        &&& self.links_at(at)[k].guard() == before.links_at(at)[k].guard()
        &&& self.links_at(at)[k].destination() == before.links_at(at)[k].destination()
        &&& self.value_at(at) == before.value_at(at)
    }

    /// Replacing the node at `at` by one whose links stay in the graph keeps it well formed.
    proof fn lemma_wf_update(before: Graph<T, I, R, C>, after: Graph<T, I, R, C>, at: ANode)
        requires
            before.wf(),
            before.contains(at),
            after.nodes() == before.nodes().update(at.id(), after.nodes()[at.id()]),
            bounded(after.nodes()[at.id()].outgoing(), before.nodes().len() as int),
        ensures
            after.wf(),
    {
        assert forall|i: int| 0 <= i < after.nodes().len() implies bounded(
            #[trigger] after.nodes()[i].outgoing(),
            after.nodes().len() as int,
        ) by {
            if i != at.id() {
                assert(after.nodes()[i] == before.nodes()[i]);
            }
        }
    }

    /// An empty graph.
    pub fn new() -> (r: Graph<T, I, R, C>)
        ensures
            r.wf(),
            r.nodes().len() == 0,
    {
        Graph { nodes: Vec::new() }
    }

    /// Adds `node`, whose links lead to nodes of the graph or to `node` itself,
    /// and returns its handle, which no link of the graph had led to.
    pub fn add(&mut self, node: Node<T, I, R, C>) -> (r: ANode)
        requires
            old(self).wf(),
            bounded(node.outgoing(), old(self).nodes().len() + 1 as int),
        ensures
            final(self).wf(),
            final(self).nodes() == old(self).nodes().push(node),
            r.id() == old(self).nodes().len(),
            old(self).untargeted(r),
    {
        let index = self.nodes.len();
        self.nodes.push(node);
        let r = ANode { index };
        proof {
            let n = old(self).nodes().len() as int;
            assert forall|i: int| 0 <= i < self.nodes().len() implies bounded(
                #[trigger] self.nodes()[i].outgoing(),
                n + 1,
            ) by {
                if i < n {
                    assert(self.nodes()[i] == old(self).nodes()[i]);
                    lemma_bounded_grows(old(self).nodes()[i].outgoing(), n, n + 1);
                }
            }
            assert forall|from: ANode, k: int|
                old(self).contains(from) && 0 <= k < old(self).links_at(from).len() implies (
                #[trigger] old(self).links_at(from)[k]).destination() != Some(r) by {
                assert(bounded(old(self).nodes()[from.id()].outgoing(), n));
            }
        }
        r
    }

    fn node_mut(&mut self, at: &ANode) -> (r: &mut Node<T, I, R, C>)
        requires
            old(self).contains(*at),
        ensures
            *r == old(self).nodes()[at.id()],
            final(self).nodes() == old(self).nodes().update(at.id(), *final(r)),
    {
        &mut self.nodes[at.index]
    }

    /// Appends to `from`'s links one that runs `process` and yields its value;
    /// returns the new link's position.
    pub fn link_function(
        &mut self,
        from: &ANode,
        destination: Option<&ANode>,
        condition: Guard<I, C>,
        process: Func<I, R, C>,
    ) -> (k: usize)
        requires
            old(self).wf(),
            old(self).contains(*from),
            old(self).admits(destination),
        ensures
            final(self).wf(),
            final(self).grown(*old(self), *from, target(destination), condition, Work::Function(process)),
            k == old(self).links_at(*from).len(),
    {
        let k = self.nodes[from.index].links.len();
        self.node_mut(from).link_function(destination, condition, process);
        proof {
            let n = old(self).nodes().len() as int;
            assert(bounded(old(self).nodes()[from.id()].outgoing(), n));
            lemma_bounded_appended(
                old(self).links_at(*from),
                self.links_at(*from),
                target(destination),
                condition,
                Work::Function(process),
                n,
            );
            Self::lemma_wf_update(*old(self), *self, *from);
        }
        k
    }

    /// Appends to `from`'s links one that runs `process` for its effect only;
    /// returns the new link's position.
    pub fn link_process(
        &mut self,
        from: &ANode,
        destination: Option<&ANode>,
        condition: Guard<I, C>,
        process: Func<I, (), C>,
    ) -> (k: usize)
        requires
            old(self).wf(),
            old(self).contains(*from),
            old(self).admits(destination),
        ensures
            final(self).wf(),
            final(self).grown(*old(self), *from, target(destination), condition, Work::Effect(process)),
            k == old(self).links_at(*from).len(),
    {
        let k = self.nodes[from.index].links.len();
        self.node_mut(from).link_process(destination, condition, process);
        proof {
            let n = old(self).nodes().len() as int;
            assert(bounded(old(self).nodes()[from.id()].outgoing(), n));
            lemma_bounded_appended(
                old(self).links_at(*from),
                self.links_at(*from),
                target(destination),
                condition,
                Work::<I, R, C>::Effect(process),
                n,
            );
            Self::lemma_wf_update(*old(self), *self, *from);
        }
        k
    }

    /// Appends to `from`'s links a pure transition, which runs nothing;
    /// returns the new link's position.
    pub fn link(&mut self, from: &ANode, destination: Option<&ANode>, condition: Guard<I, C>) -> (k: usize)
        requires
            old(self).wf(),
            old(self).contains(*from),
            old(self).admits(destination),
        ensures
            final(self).wf(),
            final(self).grown(*old(self), *from, target(destination), condition, Work::Idle),
            k == old(self).links_at(*from).len(),
    {
        let k = self.nodes[from.index].links.len();
        self.node_mut(from).link(destination, condition);
        proof {
            let n = old(self).nodes().len() as int;
            assert(bounded(old(self).nodes()[from.id()].outgoing(), n));
            lemma_bounded_appended(
                old(self).links_at(*from),
                self.links_at(*from),
                target(destination),
                condition,
                Work::<I, R, C>::Idle,
                n,
            );
            Self::lemma_wf_update(*old(self), *self, *from);
        }
        k
    }

    /// Makes the link at position `k` of `at` run `fun` and yield its value.
    pub fn set_function(&mut self, at: &ANode, k: usize, fun: Func<I, R, C>)
        requires
            old(self).wf(),
            old(self).contains(*at),
            k < old(self).links_at(*at).len(),
        ensures
            final(self).wf(),
            final(self).reconfigured(*old(self), *at, k as int, Work::Function(fun)),
    {
        self.node_mut(at).link_mut(k).set_function(fun);
        proof {
            let n = old(self).nodes().len() as int;
            let before = old(self).links_at(*at);
            let after = self.links_at(*at);
            assert(bounded(old(self).nodes()[at.id()].outgoing(), n));
            assert forall|j: int| 0 <= j < after.len() implies match (#[trigger] after[j]).destination() {
                Some(d) => 0 <= d.id() < n,
                None => true,
            } by {
                assert(before[j].destination() == after[j].destination());
            }
            Self::lemma_wf_update(*old(self), *self, *at);
        }
    }

    /// Makes the link at position `k` of `at` run `fun` for its effect only.
    pub fn set_process(&mut self, at: &ANode, k: usize, fun: Func<I, (), C>)
        requires
            old(self).wf(),
            old(self).contains(*at),
            k < old(self).links_at(*at).len(),
        ensures
            final(self).wf(),
            final(self).reconfigured(*old(self), *at, k as int, Work::Effect(fun)),
    {
        self.node_mut(at).link_mut(k).set_process(fun);
        proof {
            let n = old(self).nodes().len() as int;
            let before = old(self).links_at(*at);
            let after = self.links_at(*at);
            assert(bounded(old(self).nodes()[at.id()].outgoing(), n));
            assert forall|j: int| 0 <= j < after.len() implies match (#[trigger] after[j]).destination() {
                Some(d) => 0 <= d.id() < n,
                None => true,
            } by {
                assert(before[j].destination() == after[j].destination());
            }
            Self::lemma_wf_update(*old(self), *self, *at);
        }
    }

    /// The node `at`, or none for a handle outside the graph.
    pub fn get(&self, at: &ANode) -> (r: Option<&Node<T, I, R, C>>)
        ensures
            r == (if self.contains(*at) {
                Some(&self.nodes()[at.id()])
            } else {
                None::<&Node<T, I, R, C>>
            }),
    {
        if at.index < self.nodes.len() {
            Some(&self.nodes[at.index])
        } else {
            None
        }
    }
}

} // verus!
