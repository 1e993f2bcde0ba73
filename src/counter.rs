use crate::error::Error;
use vstd::prelude::*;

verus! {

/// One call of the counter protocol.
#[derive(Debug, Clone, Copy, PartialEq, Eq, Structural)]
pub enum Step {
    Attach(u32),
    Start,
    Stop,
    Record(u64),
}

/// The error carried by a result, if any.
pub open spec fn failure_of<A>(r: Result<A, Error>) -> Option<Error> {
    match r {
        Ok(_) => None,
        Err(e) => Some(e),
    }
}

/// A counter that can be attached to a process and driven through one run.
///
/// How a counter answers each call is a function of its `Model`: the error it
/// answers with (`outcome`), the reading that a successful `set` returns
/// (`reading`), and the model that the call leaves (`advance`).
pub trait Counter {
    /// The part of the counter's state that decides how it answers calls.
    type Model;

    spec fn model(&self) -> Self::Model;

    /// The error with which a counter in state `m` answers `step`, if any.
    spec fn outcome(m: Self::Model, step: Step) -> Option<Error>;

    /// The reading that a successful `set` returns from state `m`.
    spec fn reading(m: Self::Model) -> u64;

    /// The state that `step` leaves a counter in state `m` in.
    spec fn advance(m: Self::Model, step: Step) -> Self::Model;

    fn attach(&mut self, pid: u32) -> (r: Result<(), Error>)
        ensures
            failure_of(r) == Self::outcome(old(self).model(), Step::Attach(pid)),
            final(self).model() == Self::advance(old(self).model(), Step::Attach(pid)),
    ;

    fn start(&mut self) -> (r: Result<(), Error>)
        ensures
            failure_of(r) == Self::outcome(old(self).model(), Step::Start),
            final(self).model() == Self::advance(old(self).model(), Step::Start),
    ;

    fn stop(&mut self) -> (r: Result<(), Error>)
        ensures
            failure_of(r) == Self::outcome(old(self).model(), Step::Stop),
            final(self).model() == Self::advance(old(self).model(), Step::Stop),
    ;

    /// Records the counter's value and resets it to `value`.
    fn set(&mut self, value: u64) -> (r: Result<u64, Error>)
        ensures
            failure_of(r) == Self::outcome(old(self).model(), Step::Record(value)),
            final(self).model() == Self::advance(old(self).model(), Step::Record(value)),
            r matches Ok(v) ==> v == Self::reading(old(self).model()),
    ;
}

/// A counter-like value that has a name and a magnitude to display.
pub trait Printable {
    spec fn label(&self) -> Seq<char>;

    spec fn magnitude(&self) -> u64;

    fn name(&self) -> (r: &str)
        ensures
            r@ == self.label(),
    ;

    fn value(&self) -> (r: u64)
        ensures
            r == self.magnitude(),
    ;
}

/// The models of the counters `cs`.
pub open spec fn models<T: Counter>(cs: Seq<T>) -> Seq<T::Model> {
    cs.map_values(|c: T| c.model())
}

/// The first error with which counters in states `ms` answer `step`, handed
/// to each in order.
pub open spec fn first_failure<T: Counter>(ms: Seq<T::Model>, step: Step) -> Option<Error>
    decreases ms.len(),
{
    if ms.len() == 0 {
        None
    } else {
        match T::outcome(ms[0], step) {
            Some(e) => Some(e),
            None => first_failure::<T>(ms.drop_first(), step),
        }
    }
}

/// The states that counters in states `ms` are left in when `step` is handed
/// to each in order, up to and including the first that fails.
pub open spec fn pass<T: Counter>(ms: Seq<T::Model>, step: Step) -> Seq<T::Model>
    decreases ms.len(),
{
    if ms.len() == 0 {
        ms
    } else if T::outcome(ms[0], step) is Some {
        seq![T::advance(ms[0], step)] + ms.drop_first()
    } else {
        seq![T::advance(ms[0], step)] + pass::<T>(ms.drop_first(), step)
    }
}

/// How many of the counters in states `ms` receive `step` when it is handed
/// to each in order, up to and including the first that fails.
pub open spec fn handed<T: Counter>(ms: Seq<T::Model>, step: Step) -> nat
    decreases ms.len(),
{
    if ms.len() == 0 {
        0
    } else if T::outcome(ms[0], step) is Some {
        1
    } else {
        1 + handed::<T>(ms.drop_first(), step)
    }
}

/// The calls `step` made to the first `n` counters, by counter index.
pub open spec fn calls(n: nat, step: Step) -> Seq<(int, Step)> {
    Seq::new(n, |i: int| (i, step))
}

/// Every counter in states `ms` takes `step` without error.
pub open spec fn all_take<T: Counter>(ms: Seq<T::Model>, step: Step) -> bool {
    forall|i: int| 0 <= i < ms.len() ==> (#[trigger] T::outcome(ms[i], step)) is None
}

/// The states of counters in states `ms` once each has taken `step`.
pub open spec fn advanced<T: Counter>(ms: Seq<T::Model>, step: Step) -> Seq<T::Model> {
    ms.map_values(|m: T::Model| T::advance(m, step))
}

/// Where every counter takes `step`, the pass reaches them all and fails
/// nowhere.
pub proof fn lemma_all_take<T: Counter>(ms: Seq<T::Model>, step: Step)
    requires
        all_take::<T>(ms, step),
    ensures
        first_failure::<T>(ms, step) is None,
        pass::<T>(ms, step) == advanced::<T>(ms, step),
        handed::<T>(ms, step) == ms.len(),
{
    lemma_pass_split::<T>(ms, step, ms.len() as int);
    let rest = ms.subrange(ms.len() as int, ms.len() as int);
    assert(rest.len() == 0);
    assert(ms.subrange(0, ms.len() as int) =~= ms);
    assert(pass::<T>(ms, step) =~= advanced::<T>(ms, step));
}

/// Handing `step` to the first `i` counters, which all take it, and then to
/// the rest.
proof fn lemma_pass_split<T: Counter>(ms: Seq<T::Model>, step: Step, i: int)
    requires
        0 <= i <= ms.len(),
        forall|j: int| 0 <= j < i ==> (#[trigger] T::outcome(ms[j], step)) is None,
    ensures
        pass::<T>(ms, step) == ms.subrange(0, i).map_values(|m: T::Model| T::advance(m, step))
            + pass::<T>(ms.subrange(i, ms.len() as int), step),
        first_failure::<T>(ms, step) == first_failure::<T>(ms.subrange(i, ms.len() as int), step),
        handed::<T>(ms, step) == i + handed::<T>(ms.subrange(i, ms.len() as int), step),
    decreases i,
{
    if i == 0 {
        assert(ms.subrange(0, ms.len() as int) =~= ms);
        assert(ms.subrange(0, 0).map_values(|m: T::Model| T::advance(m, step)) =~= Seq::<
            T::Model,
        >::empty());
        assert(pass::<T>(ms, step) =~= Seq::<T::Model>::empty() + pass::<T>(ms, step));
    } else {
        let rest = ms.drop_first();
        assert(T::outcome(ms[0], step) is None);
        assert forall|j: int| 0 <= j < i - 1 implies (#[trigger] T::outcome(rest[j], step)) is None by {
            assert(rest[j] == ms[j + 1]);
            assert(T::outcome(ms[j + 1], step) is None);
        }
        lemma_pass_split::<T>(rest, step, i - 1);
        assert(rest.subrange(i - 1, rest.len() as int) =~= ms.subrange(i, ms.len() as int));
        assert(seq![T::advance(ms[0], step)] + rest.subrange(0, i - 1).map_values(
            |m: T::Model| T::advance(m, step),
        ) =~= ms.subrange(0, i).map_values(|m: T::Model| T::advance(m, step)));
        assert(pass::<T>(ms, step) =~= ms.subrange(0, i).map_values(
            |m: T::Model| T::advance(m, step),
        ) + pass::<T>(ms.subrange(i, ms.len() as int), step));
    }
}

/// Hands `step` to one counter.
pub fn apply<T: Counter>(c: &mut T, step: Step) -> (r: Result<(), Error>)
    ensures
        failure_of(r) == T::outcome(old(c).model(), step),
        final(c).model() == T::advance(old(c).model(), step),
{
    match step {
        Step::Attach(pid) => c.attach(pid),
        Step::Start => c.start(),
        Step::Stop => c.stop(),
        Step::Record(v) => match c.set(v) {
            Ok(_) => Ok(()),
            Err(e) => Err(e),
        },
    }
}

/// Hands `step` to each counter in order, stopping at the first failure, and
/// appends each call made, with the index of the counter, to `trace`.
pub fn forward<T: Counter>(cs: &mut Vec<T>, step: Step, trace: &mut Ghost<Seq<(int, Step)>>) -> (r:
    Result<(), Error>)
    ensures
        final(cs)@.len() == old(cs)@.len(),
        models(final(cs)@) == pass::<T>(models(old(cs)@), step),
        failure_of(r) == first_failure::<T>(models(old(cs)@), step),
        final(trace)@ == old(trace)@ + calls(handed::<T>(models(old(cs)@), step), step),
        all_take::<T>(models(old(cs)@), step) ==> r is Ok && models(final(cs)@) == advanced::<T>(
            models(old(cs)@),
            step,
        ) && final(trace)@ == old(trace)@ + calls(old(cs)@.len(), step),
{
    let ghost ms = models(old(cs)@);
    let n = cs.len();
    let mut i: usize = 0;
    while i < n
        invariant
            cs@.len() == n,
            n == old(cs)@.len(),
            ms == models(old(cs)@),
            0 <= i <= n,
            forall|j: int| 0 <= j < i ==> #[trigger] cs@[j].model() == T::advance(ms[j], step),
            forall|j: int| 0 <= j < i ==> (#[trigger] T::outcome(ms[j], step)) is None,
            forall|j: int| i <= j < n ==> #[trigger] cs@[j] == old(cs)@[j],
            trace@ == old(trace)@ + calls(i as nat, step),
        decreases n - i,
    {
        let r = apply(&mut cs[i], step);
        *trace = Ghost(trace@.push((i as int, step)));
        assert(trace@ =~= old(trace)@ + calls(i as nat + 1, step));
        match r {
            Ok(_) => {},
            Err(e) => {
                proof {
                    assert(T::outcome(ms[i as int], step) is Some);
                    lemma_pass_split::<T>(ms, step, i as int);
                    let rest = ms.subrange(i as int, n as int);
                    assert(rest[0] == ms[i as int]);
                    assert(rest.drop_first() =~= ms.subrange(i as int + 1, n as int));
                    assert(models(cs@) =~= pass::<T>(ms, step)) by {
                        assert forall|j: int| 0 <= j < n implies models(cs@)[j] == pass::<T>(ms, step)[j] by {
                            if j > i {
                                assert(cs@[j] == old(cs)@[j]);
                            }
                        }
                    }
                }
                return Err(e);
            },
        }
        i += 1;
    }
    proof {
        if all_take::<T>(ms, step) {
            lemma_all_take::<T>(ms, step);
        }
        lemma_pass_split::<T>(ms, step, n as int);
        assert(ms.subrange(n as int, n as int).len() == 0);
        assert(models(cs@) =~= pass::<T>(ms, step)) by {
            assert(pass::<T>(ms, step) =~= ms.subrange(0, n as int).map_values(
                |m: T::Model| T::advance(m, step),
            ) + Seq::<T::Model>::empty());
        }
    }
    Ok(())
}

} // verus!
