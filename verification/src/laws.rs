//! Properties of the translation that hold for every input, stated over the
//! mathematical model and proved once.

use vstd::prelude::*;
use crate::block::{ActionV, BlockV, PushValueV};
use crate::sim::{
    compile_ops, normalize_method_name, push_all, resolve_push_value, run, step,
    RunEnd, SimState, StepEnd,
};
use crate::value::ValueV;

verus! {

/// Whether a push operand is a literal: one that resolves to a value by
/// itself, without consulting the constant pool or the register file.
pub open spec fn is_literal_push(pv: PushValueV) -> bool {
    !(pv is Constant) && !(pv is Register)
}

/// The value a literal push operand resolves to. Only meaningful for
/// operands that `is_literal_push` accepts.
pub open spec fn literal_value(pv: PushValueV) -> ValueV {
    match pv {
        PushValueV::Undefined => ValueV::Undefined,
        PushValueV::Null => ValueV::Null,
        PushValueV::Boolean(b) => ValueV::Bool(b),
        PushValueV::Sint32(x) => ValueV::I32(x),
        PushValueV::Float32(b) => ValueV::F32(b),
        PushValueV::Float64(b) => ValueV::F64(b),
        PushValueV::String(s) => ValueV::Str(s),
        _ => ValueV::Undefined,
    }
}

/// The values of a literal operand sequence, in the same order.
pub open spec fn literal_values(vals: Seq<PushValueV>) -> Seq<ValueV> {
    vals.map_values(|pv: PushValueV| literal_value(pv))
}

/// Pushing a sequence of literals always succeeds and extends the symbolic
/// stack in push order: the first operand pushed ends up deepest, and the
/// last one on top.
pub proof fn lemma_literal_push_order(
    consts: Seq<Seq<char>>,
    stack: Seq<ValueV>,
    vals: Seq<PushValueV>,
)
    requires
        forall|k: int| 0 <= k < vals.len() ==> is_literal_push(#[trigger] vals[k]),
    ensures
        push_all(consts, stack, vals) == Some(stack + literal_values(vals)),
    decreases vals.len(),
{
    if vals.len() == 0 {
        assert(stack + literal_values(vals) =~= stack);
    } else {
        assert(is_literal_push(vals[0]));
        let tail = vals.drop_first();
        assert(forall|k: int| 0 <= k < tail.len() ==> is_literal_push(#[trigger] tail[k]));
        lemma_literal_push_order(consts, stack.push(literal_value(vals[0])), tail);
        assert(stack.push(literal_value(vals[0])) + literal_values(tail) =~= stack
            + literal_values(vals));
    }
}

/// A constant-pool reference resolves to the string at that index of the
/// pool as it stands at the time of the push; since a constant-pool action
/// replaces the simulator's pool wholesale (see `lemma_pool_replaced`),
/// earlier replacements are visible to the push and later ones are not.
pub proof fn lemma_constant_pool_resolution(consts: Seq<Seq<char>>, i: u16)
    requires
        (i as int) < consts.len(),
    ensures
        resolve_push_value(consts, PushValueV::Constant(i)) == Some(
            ValueV::Str(consts[i as int]),
        ),
{
}

/// A push of a constant-pool reference reads the pool as the state holds it
/// at the time of the push: it puts the string at that index on the stack
/// and changes nothing else.
pub proof fn lemma_constant_push_uses_pool_at_push_time(s: SimState, i: u16)
    requires
        (i as int) < s.consts.len(),
    ensures
        step(s, ActionV::Push(seq![PushValueV::Constant(i)])) == StepEnd::Next(
            SimState { stack: s.stack.push(ValueV::Str(s.consts[i as int])), ..s },
        ),
{
    let vals = seq![PushValueV::Constant(i)];
    let pushed = s.stack.push(ValueV::Str(s.consts[i as int]));
    assert(vals.drop_first() =~= Seq::<PushValueV>::empty());
    assert(push_all(s.consts, pushed, vals.drop_first()) == Some(pushed));
    assert(resolve_push_value(s.consts, vals[0]) == Some(ValueV::Str(s.consts[i as int])));
    assert(push_all(s.consts, s.stack, vals) == Some(pushed));
}

/// A constant-pool action replaces the pool wholesale — the last writer wins
/// — and touches neither the stack nor the emitted ops.
pub proof fn lemma_pool_replaced(s: SimState, pool: Seq<Seq<char>>)
    ensures
        step(s, ActionV::ConstantPool(pool)) == StepEnd::Next(
            SimState { consts: pool, stack: s.stack, ops: s.ops },
        ),
{
}

/// A method call whose name is the empty string behaves exactly as one whose
/// name is the undefined marker: both emit a plain call of the receiver, not
/// a method call.
pub proof fn lemma_empty_method_name_is_undefined(s: SimState)
    requires
        s.stack.len() >= 1,
        s.stack.last() == ValueV::Str(Seq::<char>::empty()),
    ensures
        ({
            let s2 = SimState {
                stack: s.stack.update(s.stack.len() - 1, ValueV::Undefined),
                ..s
            };
            step(s, ActionV::CallMethod) == step(s2, ActionV::CallMethod)
        }),
{
    let s2 = SimState { stack: s.stack.update(s.stack.len() - 1, ValueV::Undefined), ..s };
    assert(normalize_method_name(s.stack.last()) == ValueV::Undefined);
    assert(normalize_method_name(s2.stack.last()) == ValueV::Undefined);
    if s.stack.len() >= 3 {
        assert(s2.stack.take(s.stack.len() - 3) =~= s.stack.take(s.stack.len() - 3));
        assert(s2.stack[s.stack.len() - 2] == s.stack[s.stack.len() - 2]);
        assert(s2.stack[s.stack.len() - 3] == s.stack[s.stack.len() - 3]);
    }
}

/// A variable read whose popped name is not a literal string halts the
/// translation: no op is emitted for it, and none of the actions after it
/// contributes to the output.
pub proof fn lemma_dynamic_get_variable_halts(s: SimState, rest: Seq<ActionV>)
    requires
        s.stack.len() >= 1,
        !(s.stack.last() is Str),
    ensures
        run(s, seq![ActionV::GetVariable] + rest) == RunEnd::Done(
            SimState { stack: s.stack.drop_last(), ..s },
        ),
{
    let all = seq![ActionV::GetVariable] + rest;
    assert(all[0] == ActionV::GetVariable);
    assert(step(s, ActionV::GetVariable) == StepEnd::Bail(
        SimState { stack: s.stack.drop_last(), ..s },
    ));
}

/// Translation is deterministic: the output is a function of the block
/// alone, so compiling the same block twice, each time from fresh simulator
/// state, yields identical op sequences.
pub proof fn lemma_compile_deterministic(b1: BlockV, b2: BlockV)
    requires
        b1.actions == b2.actions,
        b1.flow == b2.flow,
    ensures
        compile_ops(b1) == compile_ops(b2),
{
}

/// The terminal flow marker cannot change the output: the
/// wait-with-extra-condition marker only discards one more stack slot, and
/// the stack is not part of the output, so a block with that marker compiles
/// to exactly what it compiles to under any other marker.
pub proof fn lemma_flow_has_no_effect(
    actions: Seq<ActionV>,
    f1: crate::block::Flow,
    f2: crate::block::Flow,
)
    ensures
        compile_ops((BlockV { actions, flow: f1 })) == compile_ops(
            (BlockV { actions, flow: f2 }),
        ),
{
}

} // verus!
