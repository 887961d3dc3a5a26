//! Idempotence of convergence, against a model of the container engine.
//!
//! What an engine does is not decided here. But what convergence relies on
//! can be written down: an engine pulls the images it can find, removes a
//! container by name, refuses to start a second container of a name, and
//! lists the running containers whose names hold the filter. On every
//! engine that answers like this, converging a unit ends with exactly one
//! running container of the instance's name, and converging it again
//! changes nothing.

use crate::command::ActionView;
use crate::converge::{converge_run, instance_name, ConvergePhase, ConvergeStepView};
use crate::exec::Exchange;
use crate::model::{FailureView, HostView, ReasonView, SpecView};
use crate::text::{
    decimal_digits, digit_value, is_space, lemma_decimal_digits, trim_end, trim_start, trimmed,
};
use vstd::prelude::*;

verus! {

/// The engine of one host, as far as convergence relies on it: the images
/// it can pull, and the names of its running containers in the order in
/// which they were started.
pub struct EngineView {
    pub images: Set<Seq<char>>,
    pub running: Seq<Seq<char>>,
}

/// Whether `needle` occurs in `hay`.
pub open spec fn contains_text(hay: Seq<char>, needle: Seq<char>) -> bool {
    exists|i: int|
        0 <= i && i + needle.len() <= hay.len() && #[trigger] hay.subrange(i, i + needle.len())
            == needle
}

/// What a listing with the name filter `filter` prints: the name of each
/// running container that holds the filter, each on a line of its own.
pub open spec fn listing(running: Seq<Seq<char>>, filter: Seq<char>) -> Seq<char>
    decreases running.len(),
{
    if running.len() == 0 {
        Seq::empty()
    } else {
        listing(running.drop_last(), filter) + if contains_text(running.last(), filter) {
            running.last() + seq!['\n']
        } else {
            Seq::empty()
        }
    }
}

/// The running containers without those named `name`.
pub open spec fn without(running: Seq<Seq<char>>, name: Seq<char>) -> Seq<Seq<char>>
    decreases running.len(),
{
    if running.len() == 0 {
        Seq::empty()
    } else if running.last() == name {
        without(running.drop_last(), name)
    } else {
        without(running.drop_last(), name).push(running.last())
    }
}

/// How many running containers are named `name`.
pub open spec fn count_named(running: Seq<Seq<char>>, name: Seq<char>) -> nat
    decreases running.len(),
{
    if running.len() == 0 {
        0
    } else {
        count_named(running.drop_last(), name) + if running.last() == name {
            1nat
        } else {
            0nat
        }
    }
}

impl EngineView {
    /// Whether the engine could answer `action` with `response`: a pull
    /// succeeds exactly for an image that can be found, a removal exactly
    /// where a container of the name runs, a start exactly where the image
    /// can be found and the name is free, and a listing always, printing
    /// what [`listing`] says. What a success or a failure prints beside
    /// that is left open.
    pub open spec fn answers(self, action: ActionView, response: Result<Seq<char>, FailureView>) -> bool {
        match action {
            ActionView::Pull { image } => response is Ok <==> self.images.contains(image),
            ActionView::Remove { name } => response is Ok <==> self.running.contains(name),
            ActionView::Run { name, image } => response is Ok <==> (self.images.contains(image)
                && !self.running.contains(name)),
            ActionView::List { name } => response == Ok::<Seq<char>, FailureView>(
                listing(self.running, name),
            ),
            _ => true,
        }
    }

    /// The engine after it answered `action` with `response`: a removal
    /// leaves no container of the name, a start that succeeded adds one,
    /// and nothing else changes what runs.
    pub open spec fn after(self, action: ActionView, response: Result<Seq<char>, FailureView>) -> EngineView {
        match action {
            ActionView::Remove { name } => EngineView {
                running: without(self.running, name),
                ..self
            },
            ActionView::Run { name, image } => if response is Ok {
                EngineView { running: self.running.push(name), ..self }
            } else {
                self
            },
            _ => self,
        }
    }
}

/// The engine after the exchanges `t`, where they are a run of the
/// convergence machine for instance `index` of `spec` from `phase` on, and
/// the engine, starting as `engine`, answered each command as the model
/// allows; `None` for any other sequence.
pub open spec fn engine_after_run(
    phase: ConvergePhase,
    engine: EngineView,
    spec: SpecView,
    index: nat,
    t: Seq<Exchange>,
) -> Option<EngineView>
    decreases t.len(),
{
    if t.len() == 0 {
        None
    } else {
        let action = phase.request(spec, index);
        if !engine.answers(action, t[0].response) {
            None
        } else {
            let next = engine.after(action, t[0].response);
            match phase.advance(spec, index, t[0].response) {
                ConvergeStepView::Next(p) => engine_after_run(p, next, spec, index, t.drop_first()),
                _ => if t.len() == 1 {
                    Some(next)
                } else {
                    None
                },
            }
        }
    }
}

/// Whether convergence of the instance named `name` from `image` can
/// succeed on `engine`: the image can be found, and no other running
/// container has a name that holds `name`, so that the listing shows the
/// instance alone.
pub open spec fn convergeable(engine: EngineView, image: Seq<char>, name: Seq<char>) -> bool {
    &&& engine.images.contains(image)
    &&& forall|k: int|
        0 <= k < engine.running.len() && contains_text(#[trigger] engine.running[k], name)
            ==> engine.running[k] == name
}

/// What is left after a removal was there before and does not have the
/// removed name.
proof fn lemma_without(running: Seq<Seq<char>>, name: Seq<char>)
    ensures
        !without(running, name).contains(name),
        count_named(without(running, name), name) == 0,
        forall|k: int|
            0 <= k < without(running, name).len() ==> running.contains(
                #[trigger] without(running, name)[k],
            ),
        !running.contains(name) ==> without(running, name) == running,
    decreases running.len(),
{
    if running.len() > 0 {
        let front = running.drop_last();
        lemma_without(front, name);
        let w = without(front, name);
        assert forall|k: int| 0 <= k < w.len() implies running.contains(#[trigger] w[k]) by {
            let j = choose|j: int| 0 <= j < front.len() && front[j] == w[k];
            assert(running[j] == w[k]);
        }
        if running.last() != name {
            let kept = w.push(running.last());
            assert(kept.drop_last() =~= w);
            assert forall|k: int| 0 <= k < kept.len() implies running.contains(
                #[trigger] kept[k],
            ) by {
                if k == w.len() {
                    assert(running[running.len() - 1] == kept[k]);
                } else {
                    assert(kept[k] == w[k]);
                }
            }
            if kept.contains(name) {
                let j = choose|j: int| 0 <= j < kept.len() && kept[j] == name;
                assert(w[j] == name);
                assert(w.contains(name));
            }
        }
        if !running.contains(name) {
            assert(running.last() == running[running.len() - 1]);
            if front.contains(name) {
                let j = choose|j: int| 0 <= j < front.len() && front[j] == name;
                assert(running[j] == name);
            }
            assert(w.push(running.last()) =~= running);
        }
    }
}

/// Where no container holds the filter in its name, the listing is empty.
proof fn lemma_listing_of_strangers(running: Seq<Seq<char>>, filter: Seq<char>)
    requires
        forall|k: int| 0 <= k < running.len() ==> !contains_text(#[trigger] running[k], filter),
    ensures
        listing(running, filter) == Seq::<char>::empty(),
    decreases running.len(),
{
    if running.len() > 0 {
        let front = running.drop_last();
        assert forall|k: int| 0 <= k < front.len() implies !contains_text(
            #[trigger] front[k],
            filter,
        ) by {
            assert(front[k] == running[k]);
        }
        lemma_listing_of_strangers(front, filter);
        assert(running.last() == running[running.len() - 1]);
        assert(listing(running, filter) =~= Seq::<char>::empty());
    }
}

/// An instance name followed by a line end is the instance name again
/// once trimmed, where the container's name does not begin with white
/// space.
proof fn lemma_listed_name_trims(container: Seq<char>, index: nat)
    requires
        container.len() > 0 ==> !is_space(container[0]),
    ensures
        trimmed(instance_name(container, index) + seq!['\n']) == instance_name(container, index),
{
    let name = instance_name(container, index);
    let digits = decimal_digits(index);
    lemma_decimal_digits(index);
    let line = name + seq!['\n'];
    assert(name.len() == container.len() + 1 + digits.len());
    assert(line[0] == name[0]);
    if container.len() > 0 {
        assert(name[0] == container[0]);
    } else {
        assert(name[0] == '-');
    }
    assert(!is_space(line[0]));
    assert(trim_start(line) == line);
    assert(is_space(line.last()));
    assert(line.drop_last() =~= name);
    let last = digits[digits.len() - 1];
    assert(name.last() == last);
    assert(digit_value(last) < 10);
    assert(!is_space(last));
    assert(trim_end(name) == name);
}

/// Whether no running container has a name that holds `name`.
pub open spec fn strangers(running: Seq<Seq<char>>, name: Seq<char>) -> bool {
    forall|k: int| 0 <= k < running.len() ==> !contains_text(#[trigger] running[k], name)
}

/// A text occurs in itself.
proof fn lemma_contains_itself(name: Seq<char>)
    ensures
        contains_text(name, name),
{
    assert(name.subrange(0int, 0int + name.len()) =~= name);
}

/// After a removal, on an engine on which the instance can converge, no
/// running container has a name that holds the instance's name.
proof fn lemma_removal_leaves_strangers(engine: EngineView, image: Seq<char>, name: Seq<char>)
    requires
        convergeable(engine, image, name),
    ensures
        strangers(without(engine.running, name), name),
{
    let kept = without(engine.running, name);
    lemma_without(engine.running, name);
    assert forall|k: int| 0 <= k < kept.len() implies !contains_text(#[trigger] kept[k], name) by {
        let j = choose|j: int| 0 <= j < engine.running.len() && engine.running[j] == kept[k];
        if contains_text(kept[k], name) {
            assert(engine.running[j] == name);
            assert(kept.contains(name));
        }
    }
}

/// An instance that runs among strangers is listed alone.
proof fn lemma_listed_alone(kept: Seq<Seq<char>>, name: Seq<char>)
    requires
        strangers(kept, name),
    ensures
        listing(kept.push(name), name) == name + seq!['\n'],
{
    let running = kept.push(name);
    lemma_listing_of_strangers(kept, name);
    assert(running.drop_last() =~= kept);
    assert(running.last() == name);
    lemma_contains_itself(name);
    assert(Seq::<char>::empty() + (name + seq!['\n']) =~= name + seq!['\n']);
}

/// The last command: where the instance runs among strangers, the listing
/// shows it alone, and the unit has converged.
proof fn lemma_checking_on_model(
    engine: EngineView,
    kept: Seq<Seq<char>>,
    target: HostView,
    spec: SpecView,
    index: nat,
    t: Seq<Exchange>,
)
    requires
        spec.container_name.len() > 0 ==> !is_space(spec.container_name[0]),
        strangers(kept, instance_name(spec.container_name, index)),
        engine.running == kept.push(instance_name(spec.container_name, index)),
        converge_run(ConvergePhase::Checking, target, spec, index, t) is Some,
        engine_after_run(ConvergePhase::Checking, engine, spec, index, t) is Some,
    ensures
        converge_run(ConvergePhase::Checking, target, spec, index, t) == Some(
            Ok::<(), ReasonView>(()),
        ),
        engine_after_run(ConvergePhase::Checking, engine, spec, index, t) == Some(engine),
{
    let name = instance_name(spec.container_name, index);
    lemma_listed_alone(kept, name);
    lemma_listed_name_trims(spec.container_name, index);
    let answer = Ok::<Seq<char>, FailureView>(name + seq!['\n']);
    assert(ConvergePhase::Checking.request(spec, index) == ActionView::List { name });
    assert(engine.answers(ActionView::List { name }, t[0].response));
    assert(t[0].response == answer);
    assert(ConvergePhase::Checking.advance(spec, index, answer) == ConvergeStepView::Converged);
    assert(engine.after(ActionView::List { name }, answer) == engine);
}

/// From the start on: where strangers run and the image can be found, the
/// container is started and then listed alone.
proof fn lemma_starting_on_model(
    engine: EngineView,
    target: HostView,
    spec: SpecView,
    index: nat,
    t: Seq<Exchange>,
)
    requires
        spec.container_name.len() > 0 ==> !is_space(spec.container_name[0]),
        engine.images.contains(spec.image_name),
        strangers(engine.running, instance_name(spec.container_name, index)),
        converge_run(ConvergePhase::Starting, target, spec, index, t) is Some,
        engine_after_run(ConvergePhase::Starting, engine, spec, index, t) is Some,
    ensures
        converge_run(ConvergePhase::Starting, target, spec, index, t) == Some(
            Ok::<(), ReasonView>(()),
        ),
        engine_after_run(ConvergePhase::Starting, engine, spec, index, t) == Some(
            EngineView {
                images: engine.images,
                running: engine.running.push(instance_name(spec.container_name, index)),
            },
        ),
{
    let name = instance_name(spec.container_name, index);
    lemma_contains_itself(name);
    if engine.running.contains(name) {
        let j = choose|j: int| 0 <= j < engine.running.len() && engine.running[j] == name;
        assert(contains_text(engine.running[j], name));
    }
    assert(t[0].response is Ok);
    let next = EngineView { images: engine.images, running: engine.running.push(name) };
    assert(engine.after(ConvergePhase::Starting.request(spec, index), t[0].response) == next);
    lemma_checking_on_model(next, engine.running, target, spec, index, t.drop_first());
}

/// On an engine on which the instance can converge, a run of convergence
/// that the engine answers as the model allows succeeds, and leaves the
/// containers that ran before under other names, and behind them one
/// container of the instance's name.
pub proof fn lemma_converge_on_model(
    engine: EngineView,
    target: HostView,
    spec: SpecView,
    index: nat,
    t: Seq<Exchange>,
)
    requires
        spec.container_name.len() > 0 ==> !is_space(spec.container_name[0]),
        convergeable(engine, spec.image_name, instance_name(spec.container_name, index)),
        converge_run(ConvergePhase::Pulling, target, spec, index, t) is Some,
        engine_after_run(ConvergePhase::Pulling, engine, spec, index, t) is Some,
    ensures
        converge_run(ConvergePhase::Pulling, target, spec, index, t) == Some(
            Ok::<(), ReasonView>(()),
        ),
        engine_after_run(ConvergePhase::Pulling, engine, spec, index, t) == Some(
            EngineView {
                images: engine.images,
                running: without(engine.running, instance_name(spec.container_name, index)).push(
                    instance_name(spec.container_name, index),
                ),
            },
        ),
{
    let name = instance_name(spec.container_name, index);
    let kept = without(engine.running, name);
    lemma_removal_leaves_strangers(engine, spec.image_name, name);
    // the pull succeeds and changes nothing
    let t1 = t.drop_first();
    assert(t[0].response is Ok);
    assert(engine.after(ConvergePhase::Pulling.request(spec, index), t[0].response) == engine);
    assert(converge_run(ConvergePhase::Removing, target, spec, index, t1) is Some);
    assert(engine_after_run(ConvergePhase::Removing, engine, spec, index, t1) is Some);
    // the removal leaves strangers, whatever it answers
    let removed = EngineView { images: engine.images, running: kept };
    assert(engine.after(ConvergePhase::Removing.request(spec, index), t1[0].response) == removed);
    lemma_starting_on_model(removed, target, spec, index, t1.drop_first());
}

/// Idempotence: on an engine that answers as the model allows, converging
/// a unit and converging it again both succeed, one container of the
/// instance's name runs after the first time, and the second time leaves
/// the engine exactly as the first time left it.
pub proof fn lemma_converge_is_idempotent(
    engine: EngineView,
    target: HostView,
    spec: SpecView,
    index: nat,
    first: Seq<Exchange>,
    second: Seq<Exchange>,
)
    requires
        spec.container_name.len() > 0 ==> !is_space(spec.container_name[0]),
        convergeable(engine, spec.image_name, instance_name(spec.container_name, index)),
        converge_run(ConvergePhase::Pulling, target, spec, index, first) is Some,
        engine_after_run(ConvergePhase::Pulling, engine, spec, index, first) matches Some(once)
            && converge_run(ConvergePhase::Pulling, target, spec, index, second) is Some
            && engine_after_run(ConvergePhase::Pulling, once, spec, index, second) is Some,
    ensures
        converge_run(ConvergePhase::Pulling, target, spec, index, first) == Some(
            Ok::<(), ReasonView>(()),
        ),
        converge_run(ConvergePhase::Pulling, target, spec, index, second) == Some(
            Ok::<(), ReasonView>(()),
        ),
        engine_after_run(ConvergePhase::Pulling, engine, spec, index, first) matches Some(once)
            && count_named(once.running, instance_name(spec.container_name, index)) == 1
            && engine_after_run(ConvergePhase::Pulling, once, spec, index, second) == Some(once),
{
    let name = instance_name(spec.container_name, index);
    let kept = without(engine.running, name);
    lemma_converge_on_model(engine, target, spec, index, first);
    let once = EngineView { images: engine.images, running: kept.push(name) };
    lemma_without(engine.running, name);
    assert(kept.push(name).drop_last() =~= kept);
    assert(convergeable(once, spec.image_name, name)) by {
        assert forall|k: int|
            0 <= k < once.running.len() && contains_text(
                #[trigger] once.running[k],
                name,
            ) implies once.running[k] == name by {
            if k < kept.len() {
                let j = choose|j: int| 0 <= j < engine.running.len() && engine.running[j] == kept[k];
                assert(engine.running[j] == name);
            }
        }
    }
    lemma_converge_on_model(once, target, spec, index, second);
    lemma_without(kept, name);
    assert(without(once.running, name) == kept);
}

} // verus!
