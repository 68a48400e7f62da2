//! The traversal head: a position in a graph and a context threaded through
//! every step.
use vstd::prelude::*;
use crate::capability::{Inspect, Otherwise};
use crate::graph::{bounded, first_fired, lemma_first_fired, ANode, Graph, Link, Linkable};

verus! {

/// Walks a graph one input symbol at a time. A cursor made with `black`
/// enters a black hole on its first step where no link fires: from then on
/// every step returns the fallback result without looking at the graph.
#[verifier::reject_recursive_types(I)]
#[verifier::reject_recursive_types(R)]
#[verifier::reject_recursive_types(C)]
pub struct Cursor<'g, T, I, R, C> {
    context: C,
    graph: &'g Graph<T, I, R, C>,
    node: ANode,
    default: Option<Otherwise<R, C>>,
    black: bool,
    in_black: bool,
}

impl<'g, T, I, R, C> Cursor<'g, T, I, R, C> {
    /// The context threaded through the steps.
    pub closed spec fn ctx(&self) -> C {
        self.context
    }

    /// The graph walked.
    pub closed spec fn graph(&self) -> Graph<T, I, R, C> {
        *self.graph
    }

    /// The node the cursor stands on.
    pub closed spec fn at(&self) -> ANode {
        self.node
    }

    /// Whether the cursor was made to enter a black hole.
    pub closed spec fn armed(&self) -> bool {
        self.black
    }

    /// Whether the cursor is in its black hole.
    pub closed spec fn absorbed(&self) -> bool {
        self.in_black
    }

    /// The fallback; none means that a step with no firing link has no result.
    pub closed spec fn fallback(&self) -> Option<Otherwise<R, C>> {
        self.default
    }

    /// The cursor stands on a node of a well-formed graph, and only an armed
    /// cursor is ever in a black hole.
    pub open spec fn wf(&self) -> bool {
        &&& self.absorbed() ==> self.armed()
        &&& self.graph().wf()
        &&& self.graph().contains(self.at())
    }

    /// The links that leave the cursor's node, in the order they are tried.
    pub open spec fn links(&self) -> Seq<Link<I, R, C>> {
        self.graph().links_at(self.at())
    }

    /// The result of a step where no link fires, from `context`.
    pub open spec fn default_result(&self, context: C) -> Option<R> {
        match self.fallback() {
            Some(f) => Some(f.value(context)),
            None => None,
        }
    }

    /// The link a step on `input` takes, if the cursor scans its node.
    pub open spec fn selected(&self, input: I) -> Option<int> {
        first_fired(self.links(), input, self.ctx())
    }

    /// The result of a step on `input`.
    pub open spec fn step_result(&self, input: I) -> Option<R> {
        if self.absorbed() {
            self.default_result(self.ctx())
        } else {
            match self.selected(input) {
                Some(k) => self.links()[k].output(input, self.ctx()),
                None => self.default_result(self.ctx()),
            }
        }
    }

    /// The context after a step on `input`.
    pub open spec fn step_context(&self, input: I) -> C {
        if self.absorbed() {
            self.ctx()
        } else {
            match self.selected(input) {
                Some(k) => self.links()[k].effect(input, self.ctx()),
                None => self.ctx(),
            }
        }
    }

    /// The node the cursor stands on after a step on `input`.
    pub open spec fn step_node(&self, input: I) -> ANode {
        if self.absorbed() {
            self.at()
        } else {
            match self.selected(input) {
                Some(k) => self.links()[k].next_node(self.at()),
                None => self.at(),
            }
        }
    }

    /// Whether the cursor is in its black hole after a step on `input`.
    pub open spec fn step_absorbed(&self, input: I) -> bool {
        self.absorbed() || (self.armed() && self.selected(input) is None)
    }

    /// The cursor after a step on `input`.
    pub closed spec fn advanced(&self, input: I) -> Self {
        Cursor {
            context: self.step_context(input),
            node: self.step_node(input),
            in_black: self.step_absorbed(input),
            ..*self
        }
    }

    /// The cursor after steps on each of `inputs`, in order.
    pub open spec fn after(&self, inputs: Seq<I>) -> Self
        decreases inputs.len(),
    {
        if inputs.len() == 0 {
            *self
        } else {
            self.advanced(inputs[0]).after(inputs.drop_first())
        }
    }

    /// The results of steps on each of `inputs`, in order.
    pub open spec fn results(&self, inputs: Seq<I>) -> Seq<Option<R>>
        decreases inputs.len(),
    {
        if inputs.len() == 0 {
            Seq::empty()
        } else {
            seq![self.step_result(inputs[0])] + self.advanced(inputs[0]).results(inputs.drop_first())
        }
    }

    /// A step changes the context, the node and the black hole as the step
    /// functions say, and nothing else.
    pub proof fn lemma_advanced(&self, input: I)
        ensures
            self.advanced(input).ctx() == self.step_context(input),
            self.advanced(input).at() == self.step_node(input),
            self.advanced(input).absorbed() == self.step_absorbed(input),
            self.advanced(input).graph() == self.graph(),
            self.advanced(input).armed() == self.armed(),
            self.advanced(input).fallback() == self.fallback(),
    {
    }

    /// A step from a well-formed cursor leaves it well formed: every link
    /// leads to a node of the graph.
    pub proof fn lemma_step_wf(&self, input: I)
        requires
            self.wf(),
        ensures
            self.advanced(input).wf(),
    {
        lemma_first_fired(self.links(), input, self.ctx());
        if !self.absorbed() {
            if let Some(k) = self.selected(input) {
                assert(bounded(self.graph().nodes()[self.at().id()].outgoing(), self.graph().nodes().len() as int));
                assert(self.links()[k] == self.graph().nodes()[self.at().id()].outgoing()[k]);
            }
        }
    }

    /// A cursor on `node` of `graph` that returns what `default` gives on a
    /// step where no link fires.
    pub fn new(context: C, graph: &'g Graph<T, I, R, C>, node: &ANode, default: Otherwise<R, C>) -> (r: Self)
        requires
            graph.wf(),
            graph.contains(*node),
        ensures
            r.wf(),
            r.ctx() == context,
            r.graph() == *graph,
            r.at() == *node,
            r.fallback() == Some(default),
            !r.armed(),
            !r.absorbed(),
    {
        Cursor { context, graph, node: node.clone(), default: Some(default), black: false, in_black: false }
    }

    /// As `new`, but the cursor enters a black hole on its first step where no
    /// link fires.
    pub fn black(
        context: C,
        graph: &'g Graph<T, I, R, C>,
        node: &ANode,
        default_black: Otherwise<R, C>,
    ) -> (r: Self)
        requires
            graph.wf(),
            graph.contains(*node),
        ensures
            r.wf(),
            r.ctx() == context,
            r.graph() == *graph,
            r.at() == *node,
            r.fallback() == Some(default_black),
            r.armed(),
            !r.absorbed(),
    {
        Cursor {
            context,
            graph,
            node: node.clone(),
            default: Some(default_black),
            black: true,
            in_black: false,
        }
    }

    /// A cursor whose steps where no link fires have no result.
    pub fn new_none(context: C, graph: &'g Graph<T, I, R, C>, node: &ANode) -> (r: Self)
        requires
            graph.wf(),
            graph.contains(*node),
        ensures
            r.wf(),
            r.ctx() == context,
            r.graph() == *graph,
            r.at() == *node,
            r.fallback() is None,
            !r.armed(),
            !r.absorbed(),
    {
        Cursor { context, graph, node: node.clone(), default: None, black: false, in_black: false }
    }

    /// Consumes one input symbol. Unless the cursor is in its black hole, the
    /// first link of its node whose condition holds runs and moves the cursor
    /// to its destination; when none holds, the cursor stays, its context is
    /// untouched, and an armed cursor enters its black hole. In the black hole,
    /// and when no link fires, the result is the fallback's.
    pub fn action(&mut self, input: I) -> (r: Option<R>)
        ensures
            r == old(self).step_result(input),
            *final(self) == old(self).advanced(input),
            old(self).wf() ==> final(self).wf(),
            final(self).ctx() == old(self).step_context(input),
            final(self).at() == old(self).step_node(input),
            final(self).absorbed() == old(self).step_absorbed(input),
            final(self).graph() == old(self).graph(),
            final(self).armed() == old(self).armed(),
            final(self).fallback() == old(self).fallback(),
    {
        proof {
            if self.wf() {
                self.lemma_step_wf(input);
            }
        }
        if self.in_black {
            return self.generate_default_black();
        }
        let graph = self.graph;
        if let Some(node) = graph.get(&self.node) {
            if let Some(k) = node.first_match(&input, &self.context) {
                proof {
                    lemma_first_fired(self.links(), input, self.ctx());
                }
                let link = &node.links()[k];
                let r = link.process(input, &mut self.context);
                self.node = link.follow(&self.node);
                return r;
            }
        }
        if self.black {
            self.in_black = true;
        }
        self.generate_default_black()
    }

    fn generate_default_black(&self) -> (r: Option<R>)
        ensures
            r == self.default_result(self.ctx()),
    {
        match &self.default {
            Some(f) => Some(f.produce(&self.context)),
            None => None,
        }
    }

    /// The live context.
    pub fn context(&self) -> (r: &C)
        ensures
            *r == self.ctx(),
    {
        &self.context
    }

    /// Hands the value attached to the cursor's node, if any, and the context
    /// to `fun`.
    pub fn access_data<F: Inspect<T, C>>(&mut self, fun: F)
        ensures
            final(self).ctx() == fun.inspected(old(self).graph().value_at(old(self).at()), old(self).ctx()),
            final(self).at() == old(self).at(),
            final(self).absorbed() == old(self).absorbed(),
            final(self).graph() == old(self).graph(),
            final(self).armed() == old(self).armed(),
            final(self).fallback() == old(self).fallback(),
            old(self).wf() ==> final(self).wf(),
    {
        let graph = self.graph;
        match graph.get(&self.node) {
            Some(node) => fun.inspect(node.value(), &mut self.context),
            None => fun.inspect(None, &mut self.context),
        }
    }

    /// Ends the traversal and yields its context.
    pub fn into_context(self) -> (r: C)
        ensures
            r == self.ctx(),
    {
        self.context
    }
}

} // verus!
