//! What holds of the store over several operations, whoever makes them and in whatever
//! order: every operation on the store is one step, and no two steps overlap.

use crate::fixed::clamp;
use crate::store::{advanced, State};
use vstd::prelude::*;

verus! {

/// The raw values after `k` advances by `delta`.
pub open spec fn advanced_times(raw: Map<Seq<char>, i128>, delta: i128, k: nat) -> Map<
    Seq<char>,
    i128,
>
    decreases k,
{
    if k == 0 {
        raw
    } else {
        advanced(advanced_times(raw, delta, (k - 1) as nat), delta)
    }
}

/// Advancing `k` times by `delta` keeps the names and adds `k * delta` to the raw value
/// of each name whose sum stays within the `i128` range.
pub proof fn lemma_advance_repeated(
    raw: Map<Seq<char>, i128>,
    delta: i128,
    k: nat,
    name: Seq<char>,
)
    requires
        raw.contains_key(name),
        i128::MIN <= raw[name] + k * delta <= i128::MAX,
    ensures
        advanced_times(raw, delta, k).dom() == raw.dom(),
        advanced_times(raw, delta, k)[name] == raw[name] + k * delta,
    decreases k,
{
    if k > 0 {
        let j = (k - 1) as nat;
        assert(j * delta == k * delta - delta) by (nonlinear_arith)
            requires
                j == k - 1,
        ;
        assert(delta >= 0 ==> 0 <= j * delta) by (nonlinear_arith);
        assert(delta <= 0 ==> j * delta <= 0) by (nonlinear_arith);
        lemma_advance_repeated(raw, delta, j, name);
        let before = advanced_times(raw, delta, j);
        assert(before.contains_key(name));
        assert(advanced_times(raw, delta, k) == advanced(before, delta));
        assert(advanced(before, delta)[name] == clamp(before[name] + delta));
        lemma_advance_keeps_names(raw, delta, k);
    } else {
        assert(k * delta == 0) by (nonlinear_arith)
            requires
                k == 0,
        ;
    }
}

/// Advancing any number of times keeps the names.
pub proof fn lemma_advance_keeps_names(raw: Map<Seq<char>, i128>, delta: i128, k: nat)
    ensures
        advanced_times(raw, delta, k).dom() == raw.dom(),
    decreases k,
{
    if k > 0 {
        lemma_advance_keeps_names(raw, delta, (k - 1) as nat);
        assert(advanced_times(raw, delta, k).dom() =~= raw.dom());
    }
}

/// Registering a name a second time leaves the store as if only the second registration
/// had been made: the raw value is the second seed, and the derived value is derived from
/// the second seed.
pub proof fn lemma_register_twice<D: Copy, F: Fn(i128) -> D>(
    start: State<D, F>,
    once: State<D, F>,
    twice: State<D, F>,
    name: Seq<char>,
    first: i128,
    second: i128,
)
    requires
        once.registered_from(&start, name, first),
        twice.registered_from(&once, name, second),
    ensures
        twice.names() == once.names(),
        twice.raw() == start.raw().insert(name, second),
        twice.raw()[name] == second,
        twice.derive_fn().ensures((second,), twice.derived()[name]),
        twice.derived() == start.derived().insert(name, twice.derived()[name]),
{
    once.lemma_same_keys();
    assert(once.names().contains(name)) by {
        assert(once.raw().dom().contains(name));
    }
    assert(twice.raw() =~= start.raw().insert(name, second));
    assert(twice.derived() =~= start.derived().insert(name, twice.derived()[name]));
}

/// One step on the store.
pub enum Operation {
    /// A registration of `name` with `seed`.
    Register { name: Seq<char>, seed: i128 },
    /// An advance by `delta`.
    Advance { delta: i128 },
    /// A snapshot, which changes nothing.
    Snapshot,
}

/// The raw values after one step.
pub open spec fn applied(raw: Map<Seq<char>, i128>, op: Operation) -> Map<Seq<char>, i128> {
    match op {
        Operation::Register { name, seed } => raw.insert(name, seed),
        Operation::Advance { delta } => advanced(raw, delta),
        Operation::Snapshot => raw,
    }
}

/// The raw values after a run of steps, the first of `ops` first.
pub open spec fn applied_all(raw: Map<Seq<char>, i128>, ops: Seq<Operation>) -> Map<
    Seq<char>,
    i128,
>
    decreases ops.len(),
{
    if ops.len() == 0 {
        raw
    } else {
        applied(applied_all(raw, ops.drop_last()), ops.last())
    }
}

/// Whether the store `after` is what the step `op` makes of the store `before`.
pub open spec fn follows<D: Copy, F: Fn(i128) -> D>(
    after: State<D, F>,
    before: State<D, F>,
    op: Operation,
) -> bool {
    match op {
        Operation::Register { name, seed } => after.registered_from(&before, name, seed),
        Operation::Advance { delta } => after.advanced_from(&before, delta),
        Operation::Snapshot => after == before,
    }
}

/// No run of steps removes a name.
pub proof fn lemma_names_are_kept(raw: Map<Seq<char>, i128>, ops: Seq<Operation>, name: Seq<char>)
    requires
        raw.contains_key(name),
    ensures
        applied_all(raw, ops).contains_key(name),
    decreases ops.len(),
{
    if ops.len() > 0 {
        lemma_names_are_kept(raw, ops.drop_last(), name);
    }
}

/// A name that is registered in the course of a run is there after the run, whatever
/// steps come before and after its registration.
pub proof fn lemma_registered_name_stays(
    raw: Map<Seq<char>, i128>,
    earlier: Seq<Operation>,
    name: Seq<char>,
    seed: i128,
    later: Seq<Operation>,
)
    ensures
        applied_all(
            raw,
            earlier.push(Operation::Register { name, seed }) + later,
        ).contains_key(name),
    decreases later.len(),
{
    let head = earlier.push(Operation::Register { name, seed });
    if later.len() == 0 {
        assert(head + later =~= head);
        assert(head.drop_last() =~= earlier);
    } else {
        lemma_registered_name_stays(raw, earlier, name, seed, later.drop_last());
        assert((head + later).drop_last() =~= head + later.drop_last());
    }
}

/// Along any run of steps from a well-formed store, every store is well-formed, so that
/// raw and derived values are kept for the same names and each derived value follows
/// from the raw value of its name; and the raw values are those that the steps give.
pub proof fn lemma_run_is_consistent<D: Copy, F: Fn(i128) -> D>(
    states: Seq<State<D, F>>,
    ops: Seq<Operation>,
)
    requires
        states.len() == ops.len() + 1,
        states[0].wf(),
        forall|i: int| 0 <= i < ops.len() ==> follows(#[trigger] states[i + 1], states[i], ops[i]),
    ensures
        states.last().wf(),
        states.last().derive_fn() == states[0].derive_fn(),
        states.last().raw() == applied_all(states[0].raw(), ops),
        states.last().derived().dom() == states.last().raw().dom(),
    decreases ops.len(),
{
    if ops.len() > 0 {
        let n = ops.len() as int;
        let front = states.drop_last();
        assert forall|i: int| 0 <= i < ops.drop_last().len() implies follows(
            #[trigger] front[i + 1],
            front[i],
            ops.drop_last()[i],
        ) by {
            assert(follows(states[i + 1], states[i], ops[i]));
        }
        lemma_run_is_consistent(front, ops.drop_last());
        assert(front.last() == states[n - 1]);
        assert(follows(states[n - 1 + 1], states[n - 1], ops[n - 1]));
    }
    states.last().lemma_same_keys();
}

} // verus!
