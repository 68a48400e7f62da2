//! What holds of every step of a cursor, stated over the step functions that
//! `Cursor::action` follows.
use vstd::prelude::*;
use crate::cursor::Cursor;
use crate::graph::{lemma_first_fired, lemma_first_fired_unique};

verus! {

/// When the links at positions `first` and `second` of the cursor's node both
/// fire, with `first` before `second` and no link before `first` firing, the
/// step takes `first` alone: its result, its effect on the context and its
/// destination are those of `first`, whatever `second` would do.
pub proof fn first_match_wins<'g, T, I, R, C>(c: &Cursor<'g, T, I, R, C>, input: I, first: int, second: int)
    requires
        !c.absorbed(),
        0 <= first < second < c.links().len(),
        c.links()[first].fires(input, c.ctx()),
        c.links()[second].fires(input, c.ctx()),
        forall|j: int| 0 <= j < first ==> !(#[trigger] c.links()[j]).fires(input, c.ctx()),
    ensures
        c.selected(input) == Some(first),
        c.step_result(input) == c.links()[first].output(input, c.ctx()),
        c.step_context(input) == c.links()[first].effect(input, c.ctx()),
        c.step_node(input) == c.links()[first].next_node(c.at()),
        !c.step_absorbed(input),
{
    lemma_first_fired_unique(c.links(), input, c.ctx(), first);
}

/// On a cursor made without a black hole, a step on which no link of its node
/// fires leaves the node and the context as they were and yields the fallback
/// result.
pub proof fn no_match_default<'g, T, I, R, C>(c: &Cursor<'g, T, I, R, C>, input: I)
    requires
        c.wf(),
        !c.armed(),
        forall|j: int| 0 <= j < c.links().len() ==> !(#[trigger] c.links()[j]).fires(input, c.ctx()),
    ensures
        c.step_node(input) == c.at(),
        c.step_context(input) == c.ctx(),
        c.step_result(input) == c.default_result(c.ctx()),
        !c.step_absorbed(input),
{
    lemma_first_fired(c.links(), input, c.ctx());
    if let Some(k) = c.selected(input) {
        assert(!c.links()[k].fires(input, c.ctx()));
    }
}

/// On a cursor made with a black hole, a step on which no link fires yields
/// the fallback result, changes neither node nor context, and leaves the
/// cursor in its black hole.
pub proof fn black_hole_entered<'g, T, I, R, C>(c: &Cursor<'g, T, I, R, C>, input: I)
    requires
        c.armed(),
        forall|j: int| 0 <= j < c.links().len() ==> !(#[trigger] c.links()[j]).fires(input, c.ctx()),
    ensures
        c.step_absorbed(input),
        c.step_node(input) == c.at(),
        c.step_context(input) == c.ctx(),
        c.step_result(input) == c.default_result(c.ctx()),
{
    lemma_first_fired(c.links(), input, c.ctx());
    if let Some(k) = c.selected(input) {
        assert(!c.links()[k].fires(input, c.ctx()));
    }
}

/// A cursor in its black hole stays there on every input: the step yields the
/// fallback result for the unchanged context and runs no link, even one that
/// would fire.
pub proof fn black_hole_absorbs<'g, T, I, R, C>(c: &Cursor<'g, T, I, R, C>, input: I)
    requires
        c.absorbed(),
    ensures
        c.step_absorbed(input),
        c.step_node(input) == c.at(),
        c.step_context(input) == c.ctx(),
        c.step_result(input) == c.default_result(c.ctx()),
{
}

/// Once in its black hole, a cursor stays there whatever the inputs: every
/// step yields the fallback result for the unchanged context, and neither the
/// node nor the context ever changes.
pub proof fn black_hole_absorbs_all<'g, T, I, R, C>(c: &Cursor<'g, T, I, R, C>, inputs: Seq<I>)
    requires
        c.absorbed(),
    ensures
        c.after(inputs).absorbed(),
        c.after(inputs).at() == c.at(),
        c.after(inputs).ctx() == c.ctx(),
        c.results(inputs).len() == inputs.len(),
        forall|k: int| 0 <= k < inputs.len() ==> #[trigger] c.results(inputs)[k] == c.default_result(c.ctx()),
    decreases inputs.len(),
{
    if inputs.len() > 0 {
        let next = c.advanced(inputs[0]);
        c.lemma_advanced(inputs[0]);
        black_hole_absorbs_all(&next, inputs.drop_first());
        assert forall|k: int| 0 <= k < inputs.len() implies #[trigger] c.results(inputs)[k] == c.default_result(c.ctx()) by {
            if k > 0 {
                assert(c.results(inputs)[k] == next.results(inputs.drop_first())[k - 1]);
            }
        }
    }
}

/// A link with no destination that fires first leaves the cursor on its node.
pub proof fn self_loop<'g, T, I, R, C>(c: &Cursor<'g, T, I, R, C>, input: I, k: int)
    requires
        !c.absorbed(),
        0 <= k < c.links().len(),
        c.links()[k].fires(input, c.ctx()),
        forall|j: int| 0 <= j < k ==> !(#[trigger] c.links()[j]).fires(input, c.ctx()),
        c.links()[k].destination() is None,
    ensures
        c.step_node(input) == c.at(),
{
    lemma_first_fired_unique(c.links(), input, c.ctx(), k);
}

} // verus!
