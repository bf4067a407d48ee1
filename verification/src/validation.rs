//! Structural validation of journeys.
//!
//! A journey is accepted when its initial step exists, every transition
//! leads to an existing step, and no walk from the initial step comes back
//! to a step it has passed. The last point is decided by a depth-first walk
//! that colours each step: untouched, on the current walk, or finished.

use vstd::prelude::*;
use crate::error::AgentError;
use crate::journey::{
    find_step_index, first_step_at, has_step, lemma_first_step, lemma_step_index, step_index,
    Journey, JourneyStep,
};
use crate::text::join;
use crate::types::{uuid_text, StepId};

verus! {

/// Whether a transition of the first step with id `from` leads to `to`.
pub open spec fn edge(steps: Seq<JourneyStep>, from: StepId, to: StepId) -> bool {
    &&& has_step(steps, from)
    &&& exists|t: int|
        0 <= t < steps[step_index(steps, from)].transitions@.len() && (#[trigger] steps[step_index(
            steps,
            from,
        )].transitions@[t]).next_step == to
}

/// Whether `walk` follows transitions from each of its steps to the next.
pub open spec fn is_walk(steps: Seq<JourneyStep>, walk: Seq<StepId>) -> bool {
    &&& walk.len() >= 1
    &&& forall|k: int| 0 <= k < walk.len() - 1 ==> edge(steps, #[trigger] walk[k], walk[k + 1])
}

/// Whether some walk from `start` passes a step twice.
pub open spec fn cyclic_from(steps: Seq<JourneyStep>, start: StepId) -> bool {
    exists|walk: Seq<StepId>, i: int, j: int|
        #![trigger walk[i], walk[j]]
        is_walk(steps, walk) && walk[0] == start && 0 <= i < j < walk.len() && walk[i] == walk[j]
}

/// Whether every transition leads to an existing step.
pub open spec fn targets_exist(steps: Seq<JourneyStep>) -> bool {
    forall|v: int, t: int|
        0 <= v < steps.len() && 0 <= t < steps[v].transitions@.len() ==> has_step(
            steps,
            (#[trigger] steps[v].transitions@[t]).next_step,
        )
}

/// Whether a journey is well formed.
pub open spec fn valid_journey(journey: Journey) -> bool {
    &&& has_step(journey.steps@, journey.initial_step)
    &&& targets_exist(journey.steps@)
    &&& !cyclic_from(journey.steps@, journey.initial_step)
}

/// Whether transition `t` of step `v` is the first that leads to no step,
/// in the order of the steps and, within a step, of its transitions.
pub open spec fn first_missing(steps: Seq<JourneyStep>, v: int, t: int) -> bool {
    &&& 0 <= v < steps.len()
    &&& 0 <= t < steps[v].transitions@.len()
    &&& !has_step(steps, steps[v].transitions@[t].next_step)
    &&& forall|a: int, u: int|
        0 <= a < steps.len() && 0 <= u < steps[a].transitions@.len() && (a < v || (a == v && u
            < t)) ==> has_step(steps, (#[trigger] steps[a].transitions@[u]).next_step)
}

/// The message for an initial step that is no step of the journey.
pub open spec fn missing_initial_message(id: StepId) -> Seq<char> {
    "Initial step "@ + uuid_text(id.value) + " not found in journey steps"@
}

/// The message for a transition that leads to no step of the journey.
pub open spec fn missing_target_message(id: StepId) -> Seq<char> {
    "Transition target "@ + uuid_text(id.value) + " not found in journey steps"@
}

/// The message for a journey with a cycle.
pub open spec fn cycle_message() -> Seq<char> {
    "Circular dependency detected in journey"@
}

/// Whether `text` is the message of the error that rejects a journey: it
/// names the first check that fails, and the step that is missing.
pub open spec fn rejection(journey: Journey, text: Seq<char>) -> bool {
    if !has_step(journey.steps@, journey.initial_step) {
        text == missing_initial_message(journey.initial_step)
    } else if !targets_exist(journey.steps@) {
        exists|v: int, t: int| #[trigger]
            first_missing(journey.steps@, v, t) && text == missing_target_message(
                journey.steps@[v].transitions@[t].next_step,
            )
    } else {
        text == cycle_message()
    }
}

/// The number of untouched steps.
pub open spec fn whites(colors: Seq<u8>) -> nat
    decreases colors.len(),
{
    if colors.len() == 0 {
        0
    } else {
        whites(colors.drop_last()) + if colors.last() == 0 {
            1nat
        } else {
            0nat
        }
    }
}

proof fn lemma_whites_update(colors: Seq<u8>, position: int, color: u8)
    requires
        0 <= position < colors.len(),
    ensures
        whites(colors.update(position, color)) + (if colors[position] == 0 {
            1nat
        } else {
            0nat
        }) == whites(colors) + (if color == 0 {
            1nat
        } else {
            0nat
        }),
    decreases colors.len(),
{
    let updated = colors.update(position, color);
    if position == colors.len() - 1 {
        assert(updated.drop_last() =~= colors.drop_last());
    } else {
        assert(updated.drop_last() =~= colors.drop_last().update(position, color));
        lemma_whites_update(colors.drop_last(), position, color);
    }
}

/// The state of the walk: touched steps are first steps of their id, and
/// every finished step leads only to finished steps of lower rank.
pub open spec fn walk_ok(steps: Seq<JourneyStep>, colors: Seq<u8>, ranks: Seq<int>, clock: int) -> bool {
    &&& colors.len() == steps.len()
    &&& ranks.len() == steps.len()
    &&& forall|v: int|
        0 <= v < steps.len() && #[trigger] colors[v] != 0 ==> first_step_at(steps, steps[v].id, v)
    &&& forall|v: int| 0 <= v < steps.len() ==> #[trigger] colors[v] <= 2
    &&& forall|v: int| 0 <= v < steps.len() && #[trigger] colors[v] == 2 ==> ranks[v] < clock
    &&& forall|v: int, t: int|
        0 <= v < steps.len() && colors[v] == 2 && 0 <= t < steps[v].transitions@.len() ==> {
            let w = step_index(steps, (#[trigger] steps[v].transitions@[t]).next_step);
            0 <= w < steps.len() && colors[w] == 2 && ranks[w] < ranks[v]
        }
}

/// The steps on the current walk are exactly the first steps whose id the
/// walk holds.
pub open spec fn greys_on(steps: Seq<JourneyStep>, colors: Seq<u8>, walk: Seq<StepId>) -> bool {
    forall|v: int|
        0 <= v < steps.len() ==> (#[trigger] colors[v] == 1 <==> first_step_at(
            steps,
            steps[v].id,
            v,
        ) && walk.contains(steps[v].id))
}

/// Along a walk that begins at a finished step, every step is finished and
/// of lower rank than all before it.
proof fn lemma_walk_ranks(
    steps: Seq<JourneyStep>,
    colors: Seq<u8>,
    ranks: Seq<int>,
    clock: int,
    walk: Seq<StepId>,
    k: int,
)
    requires
        targets_exist(steps),
        walk_ok(steps, colors, ranks, clock),
        is_walk(steps, walk),
        has_step(steps, walk[0]),
        colors[step_index(steps, walk[0])] == 2,
        0 <= k < walk.len(),
    ensures
        has_step(steps, walk[k]),
        0 <= step_index(steps, walk[k]) < steps.len(),
        colors[step_index(steps, walk[k])] == 2,
        forall|i: int|
            0 <= i < k ==> ranks[step_index(steps, walk[k])] < ranks[step_index(
                steps,
                #[trigger] walk[i],
            )],
    decreases k,
{
    if k == 0 {
        lemma_step_index(steps, walk[0]);
    } else {
        lemma_walk_ranks(steps, colors, ranks, clock, walk, k - 1);
        let from = walk[k - 1];
        let v = step_index(steps, from);
        assert(edge(steps, from, walk[k - 1 + 1]));
        let t = choose|t: int|
            0 <= t < steps[v].transitions@.len() && (#[trigger] steps[v].transitions@[t]).next_step
                == walk[k];
        assert(has_step(steps, steps[v].transitions@[t].next_step));
        lemma_step_index(steps, walk[k]);
        let w = step_index(steps, steps[v].transitions@[t].next_step);
        assert(colors[w] == 2 && ranks[w] < ranks[v]);
    }
}

/// Once the walk from `start` has finished without meeting a step of the
/// current walk, no walk from `start` passes a step twice.
proof fn lemma_finished_is_acyclic(
    steps: Seq<JourneyStep>,
    colors: Seq<u8>,
    ranks: Seq<int>,
    clock: int,
    start: StepId,
)
    requires
        targets_exist(steps),
        walk_ok(steps, colors, ranks, clock),
        has_step(steps, start),
        colors[step_index(steps, start)] == 2,
    ensures
        !cyclic_from(steps, start),
{
    if cyclic_from(steps, start) {
        let (walk, i, j) = choose|walk: Seq<StepId>, i: int, j: int|
            #![trigger walk[i], walk[j]]
            is_walk(steps, walk) && walk[0] == start && 0 <= i < j < walk.len() && walk[i]
                == walk[j];
        lemma_walk_ranks(steps, colors, ranks, clock, walk, j);
        assert(ranks[step_index(steps, walk[j])] < ranks[step_index(steps, walk[i])]);
    }
}

/// Taking an untouched step onto the walk keeps the state of the walk.
proof fn lemma_open(
    steps: Seq<JourneyStep>,
    entry: Seq<u8>,
    ranks: Seq<int>,
    clock: int,
    way: Seq<StepId>,
    node: int,
)
    requires
        walk_ok(steps, entry, ranks, clock),
        0 <= node < steps.len(),
        entry[node] == 0,
        first_step_at(steps, steps[node].id, node),
        way.len() >= 1,
        way.last() == steps[node].id,
        greys_on(steps, entry, way.drop_last()),
    ensures
        walk_ok(steps, entry.update(node, 1), ranks, clock),
        greys_on(steps, entry.update(node, 1), way),
        whites(entry.update(node, 1)) < whites(entry),
        !way.drop_last().contains(steps[node].id),
{
    let colors = entry.update(node, 1);
    lemma_whites_update(entry, node, 1);
    assert(way =~= way.drop_last().push(way.last()));
    assert forall|v: int| 0 <= v < steps.len() implies (#[trigger] colors[v] == 1
        <==> first_step_at(
        steps,
        steps[v].id,
        v,
    ) && way.contains(steps[v].id)) by {
        if v == node {
            assert(way[way.len() - 1] == steps[v].id);
        } else {
            if first_step_at(steps, steps[v].id, v) && way.contains(steps[v].id) {
                let at = choose|at: int| 0 <= at < way.len() && way[at] == steps[v].id;
                if at == way.len() - 1 {
                    lemma_first_step(steps, steps[v].id, v);
                    lemma_first_step(steps, steps[node].id, node);
                } else {
                    assert(way.drop_last()[at] == steps[v].id);
                }
            }
            if entry[v] == 1 {
                let at = choose|at: int|
                    0 <= at < way.drop_last().len() && way.drop_last()[at] == steps[v].id;
                assert(way[at] == steps[v].id);
            }
        }
    }
    assert forall|v: int, t: int|
        0 <= v < steps.len() && colors[v] == 2 && 0 <= t < steps[v].transitions@.len() implies {
        let w = step_index(steps, (#[trigger] steps[v].transitions@[t]).next_step);
        0 <= w < steps.len() && colors[w] == 2 && ranks[w] < ranks[v]
    } by {
        assert(entry[v] == 2);
    }
    if way.drop_last().contains(steps[node].id) {
        assert(entry[node] == 1);
    }
}

/// Finishing a step whose transitions all lead to finished steps keeps the
/// state of the walk.
proof fn lemma_close(
    steps: Seq<JourneyStep>,
    closing: Seq<u8>,
    ranks: Seq<int>,
    clock: int,
    way: Seq<StepId>,
    node: int,
)
    requires
        walk_ok(steps, closing, ranks, clock),
        0 <= node < steps.len(),
        closing[node] == 1,
        first_step_at(steps, steps[node].id, node),
        way.len() >= 1,
        way.last() == steps[node].id,
        greys_on(steps, closing, way),
        !way.drop_last().contains(steps[node].id),
        forall|u: int|
            0 <= u < steps[node].transitions@.len() ==> {
                let w = step_index(steps, (#[trigger] steps[node].transitions@[u]).next_step);
                0 <= w < steps.len() && closing[w] == 2
            },
    ensures
        walk_ok(steps, closing.update(node, 2), ranks.update(node, clock), clock + 1),
        greys_on(steps, closing.update(node, 2), way.drop_last()),
        whites(closing.update(node, 2)) == whites(closing),
{
    let colors = closing.update(node, 2);
    let ranks_end = ranks.update(node, clock);
    lemma_whites_update(closing, node, 2);
    assert forall|v: int, u: int|
        0 <= v < steps.len() && colors[v] == 2 && 0 <= u < steps[v].transitions@.len() implies {
        let w = step_index(steps, (#[trigger] steps[v].transitions@[u]).next_step);
        0 <= w < steps.len() && colors[w] == 2 && ranks_end[w] < ranks_end[v]
    } by {
        let w = step_index(steps, steps[v].transitions@[u].next_step);
        if v == node {
            assert(closing[w] == 2);
            assert(w != node);
            assert(ranks[w] < clock);
        } else {
            assert(closing[v] == 2);
            assert(closing[w] == 2);
            assert(w != node);
        }
    }
    assert forall|v: int| 0 <= v < steps.len() && #[trigger] colors[v] == 2 implies ranks_end[v]
        < clock + 1 by {
        if v != node {
            assert(closing[v] == 2);
        }
    }
    assert forall|v: int| 0 <= v < steps.len() && #[trigger] colors[v] != 0 implies first_step_at(
        steps,
        steps[v].id,
        v,
    ) by {
        if v != node {
            assert(closing[v] != 0);
        }
    }
    assert forall|v: int| 0 <= v < steps.len() implies (#[trigger] colors[v] == 1
        <==> first_step_at(
        steps,
        steps[v].id,
        v,
    ) && way.drop_last().contains(steps[v].id)) by {
        if v != node {
            if closing[v] == 1 {
                let at = choose|at: int| 0 <= at < way.len() && way[at] == steps[v].id;
                if at == way.len() - 1 {
                    lemma_first_step(steps, steps[v].id, v);
                    lemma_first_step(steps, steps[node].id, node);
                } else {
                    assert(way.drop_last()[at] == steps[v].id);
                }
            }
            if first_step_at(steps, steps[v].id, v) && way.drop_last().contains(steps[v].id) {
                let at = choose|at: int|
                    0 <= at < way.drop_last().len() && way.drop_last()[at] == steps[v].id;
                assert(way[at] == steps[v].id);
            }
        }
    }
}

/// A walk goes on along a transition of its last step.
proof fn lemma_extend(steps: Seq<JourneyStep>, way: Seq<StepId>, node: int, t: int)
    requires
        is_walk(steps, way),
        0 <= node < steps.len(),
        first_step_at(steps, steps[node].id, node),
        way.last() == steps[node].id,
        0 <= t < steps[node].transitions@.len(),
    ensures
        is_walk(steps, way.push(steps[node].transitions@[t].next_step)),
        way.push(steps[node].transitions@[t].next_step).drop_last() == way,
{
    let target = steps[node].transitions@[t].next_step;
    let longer = way.push(target);
    lemma_first_step(steps, steps[node].id, node);
    assert(edge(steps, way.last(), target));
    assert forall|k: int| 0 <= k < longer.len() - 1 implies edge(
        steps,
        #[trigger] longer[k],
        longer[k + 1],
    ) by {
        if k < way.len() - 1 {
            assert(longer[k] == way[k]);
            assert(longer[k + 1] == way[k + 1]);
            assert(edge(steps, way[k], way[k + 1]));
        }
    }
    assert(longer.drop_last() =~= way);
}

/// A walk that comes back to a step on it shows a cycle.
proof fn lemma_cycle(steps: Seq<JourneyStep>, way: Seq<StepId>, target: StepId, start: StepId)
    requires
        is_walk(steps, way.push(target)),
        way.len() >= 1,
        way[0] == start,
        way.contains(target),
    ensures
        cyclic_from(steps, start),
{
    let longer = way.push(target);
    let at = choose|at: int| 0 <= at < way.len() && way[at] == target;
    let end = way.len() as int;
    assert(longer[at] == longer[end]);
    assert(is_walk(steps, longer) && longer[0] == start && 0 <= at < end < longer.len()
        && longer[at] == longer[end]);
}

/// Walks from step `node`, which is untouched, and reports whether the walk
/// met a step that lies on the way to it.
fn visit(
    steps: &Vec<JourneyStep>,
    node: usize,
    colors: &mut Vec<u8>,
    Ghost(start): Ghost<StepId>,
    Ghost(way): Ghost<Seq<StepId>>,
    Ghost(ranks): Ghost<Seq<int>>,
    Ghost(clock): Ghost<int>,
) -> (out: (bool, Ghost<Seq<int>>, Ghost<int>))
    requires
        targets_exist(steps@),
        walk_ok(steps@, old(colors)@, ranks, clock),
        node < steps@.len(),
        old(colors)@[node as int] == 0,
        first_step_at(steps@, steps@[node as int].id, node as int),
        is_walk(steps@, way),
        way[0] == start,
        way.last() == steps@[node as int].id,
        greys_on(steps@, old(colors)@, way.drop_last()),
    ensures
        out.0 ==> cyclic_from(steps@, start),
        !out.0 ==> {
            &&& walk_ok(steps@, final(colors)@, out.1@, out.2@)
            &&& final(colors)@[node as int] == 2
            &&& greys_on(steps@, final(colors)@, way.drop_last())
            &&& forall|v: int|
                0 <= v < steps@.len() && old(colors)@[v] == 2 ==> #[trigger] final(colors)@[v] == 2
                    && out.1@[v] == ranks[v]
            &&& whites(final(colors)@) < whites(old(colors)@)
        },
    decreases whites(old(colors)@),
{
    let ghost entry = colors@;
    let ghost mut ranks_now = ranks;
    let ghost mut clock_now = clock;
    colors[node] = 1;
    proof {
        lemma_open(steps@, entry, ranks, clock, way, node as int);
        assert(colors@ =~= entry.update(node as int, 1));
    }
    let count = steps[node].transitions.len();
    let mut t: usize = 0;
    while t < count
        invariant
            t <= count,
            count == steps@[node as int].transitions@.len(),
            node < steps@.len(),
            entry == old(colors)@,
            entry.len() == steps@.len(),
            ranks.len() == steps@.len(),
            targets_exist(steps@),
            first_step_at(steps@, steps@[node as int].id, node as int),
            is_walk(steps@, way),
            way[0] == start,
            way.last() == steps@[node as int].id,
            !way.drop_last().contains(steps@[node as int].id),
            walk_ok(steps@, colors@, ranks_now, clock_now),
            colors@[node as int] == 1,
            greys_on(steps@, colors@, way),
            forall|v: int|
                0 <= v < steps@.len() && entry[v] == 2 ==> #[trigger] colors@[v] == 2
                    && ranks_now[v] == ranks[v],
            whites(colors@) < whites(entry),
            forall|u: int|
                0 <= u < t ==> {
                    let w = step_index(
                        steps@,
                        (#[trigger] steps@[node as int].transitions@[u]).next_step,
                    );
                    0 <= w < steps@.len() && colors@[w] == 2
                },
        decreases count - t,
    {
        let target = steps[node].transitions[t].next_step;
        let ghost before = colors@;
        let ghost ranks_before = ranks_now;
        assert(has_step(steps@, steps@[node as int].transitions@[t as int].next_step));
        let found = find_step_index(steps, target);
        assert(found is Some);
        let next = found.unwrap();
        let ghost longer = way.push(target);
        proof {
            lemma_extend(steps@, way, node as int, t as int);
        }
        let color = colors[next];
        if color == 1 {
            proof {
                lemma_cycle(steps@, way, target, start);
            }
            return (true, Ghost(ranks_now), Ghost(clock_now));
        }
        if color == 0 {
            let (cycle, Ghost(ranks_after), Ghost(clock_after)) = visit(
                steps,
                next,
                colors,
                Ghost(start),
                Ghost(longer),
                Ghost(ranks_now),
                Ghost(clock_now),
            );
            if cycle {
                return (true, Ghost(ranks_after), Ghost(clock_after));
            }
            proof {
                ranks_now = ranks_after;
                clock_now = clock_after;
                assert(way.contains(steps@[node as int].id)) by {
                    assert(way[way.len() - 1] == steps@[node as int].id);
                }
                assert forall|u: int| 0 <= u < t implies {
                    let w = step_index(
                        steps@,
                        (#[trigger] steps@[node as int].transitions@[u]).next_step,
                    );
                    0 <= w < steps@.len() && colors@[w] == 2
                } by {
                    let w = step_index(steps@, steps@[node as int].transitions@[u].next_step);
                    assert(before[w] == 2);
                }
                assert forall|v: int| 0 <= v < steps@.len() && entry[v]
                    == 2 implies #[trigger] colors@[v]
                    == 2 && ranks_now[v] == ranks[v] by {
                    assert(before[v] == 2);
                }
            }
        }
        assert(colors@[next as int] == 2);
        t += 1;
    }
    let ghost closing = colors@;
    colors[node] = 2;
    proof {
        lemma_close(steps@, closing, ranks_now, clock_now, way, node as int);
        assert(colors@ =~= closing.update(node as int, 2));
        assert forall|v: int| 0 <= v < steps@.len() && entry[v] == 2 implies #[trigger] colors@[v]
            == 2 && ranks_now.update(node as int, clock_now)[v] == ranks[v] by {
            assert(closing[v] == 2);
        }
    }
    (false, Ghost(ranks_now.update(node as int, clock_now)), Ghost(clock_now + 1))
}

/// Whether some walk from the initial step passes a step twice.
fn check_circular_dependencies(journey: &Journey) -> (checked: Result<(), AgentError>)
    requires
        has_step(journey.steps@, journey.initial_step),
        targets_exist(journey.steps@),
    ensures
        checked is Ok <==> !cyclic_from(journey.steps@, journey.initial_step),
        checked matches Err(error) ==> error matches AgentError::Journey(text) && text@
            == cycle_message(),
{
    let steps = &journey.steps;
    let mut colors: Vec<u8> = Vec::new();
    let mut i: usize = 0;
    while i < steps.len()
        invariant
            i <= steps@.len(),
            colors@.len() == i,
            forall|v: int| 0 <= v < i ==> colors@[v] == 0,
        decreases steps.len() - i,
    {
        colors.push(0);
        i += 1;
    }
    match find_step_index(steps, journey.initial_step) {
        None => {
            assert(false);
            Ok(())
        },
        Some(first) => {
            let ghost ranks = Seq::new(steps@.len(), |v: int| 0int);
            let ghost way = seq![journey.initial_step];
            proof {
                assert(way.drop_last() =~= Seq::<StepId>::empty());
                assert(is_walk(steps@, way));
            }
            let (cycle, Ghost(ranks_after), Ghost(clock_after)) = visit(
                steps,
                first,
                &mut colors,
                Ghost(journey.initial_step),
                Ghost(way),
                Ghost(ranks),
                Ghost(0int),
            );
            if cycle {
                Err(AgentError::Journey("Circular dependency detected in journey".to_owned()))
            } else {
                proof {
                    lemma_finished_is_acyclic(
                        steps@,
                        colors@,
                        ranks_after,
                        clock_after,
                        journey.initial_step,
                    );
                }
                Ok(())
            }
        },
    }
}

/// The target of the first transition that leads to no step.
fn find_missing_target(steps: &Vec<JourneyStep>) -> (missing: Option<StepId>)
    ensures
        missing is None <==> targets_exist(steps@),
        missing matches Some(id) ==> exists|v: int, t: int| #[trigger]
            first_missing(steps@, v, t) && id == steps@[v].transitions@[t].next_step,
{
    let mut v: usize = 0;
    while v < steps.len()
        invariant
            v <= steps@.len(),
            forall|a: int, u: int|
                0 <= a < v && 0 <= u < steps@[a].transitions@.len() ==> has_step(
                    steps@,
                    (#[trigger] steps@[a].transitions@[u]).next_step,
                ),
        decreases steps.len() - v,
    {
        let mut t: usize = 0;
        while t < steps[v].transitions.len()
            invariant
                v < steps@.len(),
                t <= steps@[v as int].transitions@.len(),
                forall|a: int, u: int|
                    0 <= a < v && 0 <= u < steps@[a].transitions@.len() ==> has_step(
                        steps@,
                        (#[trigger] steps@[a].transitions@[u]).next_step,
                    ),
                forall|u: int|
                    0 <= u < t ==> has_step(
                        steps@,
                        (#[trigger] steps@[v as int].transitions@[u]).next_step,
                    ),
            decreases steps[v as int].transitions.len() - t,
        {
            let target = steps[v].transitions[t].next_step;
            if find_step_index(steps, target).is_none() {
                assert(first_missing(steps@, v as int, t as int));
                return Some(target);
            }
            t += 1;
        }
        v += 1;
    }
    None
}

/// Checks the structure of a journey: the initial step exists, every
/// transition leads to an existing step, and no walk from the initial step
/// passes a step twice.
pub fn validate_journey(journey: &Journey) -> (checked: Result<(), AgentError>)
    ensures
        checked is Ok <==> valid_journey(*journey),
        checked matches Err(error) ==> error matches AgentError::Journey(text) && rejection(
            *journey,
            text@,
        ),
{
    if find_step_index(&journey.steps, journey.initial_step).is_none() {
        let mut text = join("Initial step ", journey.initial_step.to_string().as_str());
        text.append(" not found in journey steps");
        return Err(AgentError::Journey(text));
    }
    if let Some(target) = find_missing_target(&journey.steps) {
        let mut text = join("Transition target ", target.to_string().as_str());
        text.append(" not found in journey steps");
        return Err(AgentError::Journey(text));
    }
    check_circular_dependencies(journey)
}

} // verus!
