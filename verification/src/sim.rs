//! The mathematical model of the translation: a symbolic execution of the
//! action sequence, one action at a time, over a state made of the constant
//! pool, the symbolic operand stack and the ops emitted so far.

use vstd::prelude::*;
use crate::block::{ActionV, BlockV, PushValueV};
use crate::code::OpV;
use crate::value::{value_as_i32, ValueV};

verus! {

/// The simulator's state between two actions.
pub struct SimState {
    /// The block's current constant pool.
    pub consts: Seq<Seq<char>>,
    /// The symbolic operand stack; the tail is the top.
    pub stack: Seq<ValueV>,
    /// The ops emitted so far, in emission order.
    pub ops: Seq<OpV>,
}

/// The state translation starts from: everything empty.
pub open spec fn init_state() -> SimState {
    SimState { consts: Seq::empty(), stack: Seq::empty(), ops: Seq::empty() }
}

/// What one action does to the state.
pub enum StepEnd {
    /// The action was translated; go on with the next one.
    Next(SimState),
    /// An operand was too dynamic to resolve statically: translation stops
    /// here, and the ops emitted so far are the result.
    Bail(SimState),
    /// The block is malformed: a stack underflow, an out-of-range
    /// constant-pool read, or a register read.
    Defect,
}

/// How a whole action sequence ends.
pub enum RunEnd {
    Done(SimState),
    Defect,
}

/// Appends one op to the emitted sequence.
pub open spec fn emit(s: SimState, op: OpV) -> SimState {
    SimState { ops: s.ops.push(op), ..s }
}

/// The value a single push operand resolves to: literals map one to one, a
/// constant-pool reference resolves at once to the pool entry as a string,
/// and a register reference reads the register file — which is never written
/// within a block, so every register read is out of range and a defect.
pub open spec fn resolve_push_value(consts: Seq<Seq<char>>, pv: PushValueV) -> Option<ValueV> {
    match pv {
        PushValueV::Undefined => Some(ValueV::Undefined),
        PushValueV::Null => Some(ValueV::Null),
        PushValueV::Boolean(b) => Some(ValueV::Bool(b)),
        PushValueV::Sint32(x) => Some(ValueV::I32(x)),
        PushValueV::Float32(b) => Some(ValueV::F32(b)),
        PushValueV::Float64(b) => Some(ValueV::F64(b)),
        PushValueV::String(s) => Some(ValueV::Str(s)),
        PushValueV::Constant(i) => if (i as int) < consts.len() {
            Some(ValueV::Str(consts[i as int]))
        } else {
            None
        },
        PushValueV::Register(_) => None,
    }
}

/// Pushes each operand in order; `None` as soon as one of them is a defect.
pub open spec fn push_all(
    consts: Seq<Seq<char>>,
    stack: Seq<ValueV>,
    vals: Seq<PushValueV>,
) -> Option<Seq<ValueV>>
    decreases vals.len(),
{
    if vals.len() == 0 {
        Some(stack)
    } else {
        match resolve_push_value(consts, vals[0]) {
            Some(v) => push_all(consts, stack.push(v), vals.drop_first()),
            None => None,
        }
    }
}

/// How many arguments an argument-count integer asks for: a negative count
/// asks for none.
pub open spec fn arg_count_of(c: int) -> nat {
    if c < 0 {
        0
    } else {
        c as nat
    }
}

/// The argument list collected by popping `n` values: in pop order, so the
/// first argument is the value pushed last.
pub open spec fn popped_args(stack: Seq<ValueV>, n: nat) -> Seq<ValueV> {
    Seq::new(n, |j: int| stack[stack.len() - 1 - j])
}

/// Pop a name; a literal string name becomes a variable read whose result is
/// left on the stack, and anything else is too dynamic.
pub open spec fn step_get_variable(s: SimState) -> StepEnd {
    if s.stack.len() < 1 {
        StepEnd::Defect
    } else {
        let name = s.stack.last();
        let rest = s.stack.drop_last();
        match name {
            ValueV::Str(n) => StepEnd::Next(
                SimState {
                    consts: s.consts,
                    stack: rest.push(ValueV::OpRes(s.ops.len() as int)),
                    ops: s.ops.push(OpV::GetVar(n)),
                },
            ),
            _ => StepEnd::Bail(SimState { stack: rest, ..s }),
        }
    }
}

/// Pop a value, then a name; a literal string name becomes a variable write
/// whose result is left on the stack, and anything else is too dynamic.
pub open spec fn step_set_variable(s: SimState) -> StepEnd {
    if s.stack.len() < 2 {
        StepEnd::Defect
    } else {
        let value = s.stack.last();
        let name = s.stack[s.stack.len() - 2];
        let rest = s.stack.take(s.stack.len() - 2);
        match name {
            ValueV::Str(n) => StepEnd::Next(
                SimState {
                    consts: s.consts,
                    stack: rest.push(ValueV::OpRes(s.ops.len() as int)),
                    ops: s.ops.push(OpV::SetVar(n, value)),
                },
            ),
            _ => StepEnd::Bail(SimState { stack: rest, ..s }),
        }
    }
}

/// Pop a name, then an argument count. A literal string name with a numeric
/// count becomes a variable read of the function followed by a call of its
/// result; the call's own result is left on the stack. Anything else is too
/// dynamic.
pub open spec fn step_call_function(s: SimState) -> StepEnd {
    if s.stack.len() < 2 {
        StepEnd::Defect
    } else {
        let name = s.stack.last();
        let count = s.stack[s.stack.len() - 2];
        let rest = s.stack.take(s.stack.len() - 2);
        match (name, value_as_i32(count)) {
            (ValueV::Str(n), Some(c)) => {
                let cnt = arg_count_of(c);
                if rest.len() < cnt {
                    StepEnd::Defect
                } else {
                    let get_index = s.ops.len() as int;
                    StepEnd::Next(
                        SimState {
                            consts: s.consts,
                            stack: rest.take(rest.len() - cnt).push(
                                ValueV::OpRes(get_index + 1),
                            ),
                            ops: s.ops.push(OpV::GetVar(n)).push(
                                OpV::Call(ValueV::OpRes(get_index), popped_args(rest, cnt)),
                            ),
                        },
                    )
                }
            },
            _ => StepEnd::Bail(SimState { stack: rest, ..s }),
        }
    }
}

/// An empty-string method name means "no method name": the call goes to the
/// receiver itself, as if the name were the undefined marker.
pub open spec fn normalize_method_name(name: ValueV) -> ValueV {
    match name {
        ValueV::Str(s) => if s.len() == 0 {
            ValueV::Undefined
        } else {
            ValueV::Str(s)
        },
        _ => name,
    }
}

/// Pop a method name, a receiver, and an argument count. After normalizing an
/// empty name to the undefined marker: an undefined name with a numeric count
/// calls the receiver itself; a literal string name with a numeric count
/// calls the named method; anything else is too dynamic. On success the
/// call's result is left on the stack.
pub open spec fn step_call_method(s: SimState) -> StepEnd {
    if s.stack.len() < 3 {
        StepEnd::Defect
    } else {
        let name = normalize_method_name(s.stack.last());
        let receiver = s.stack[s.stack.len() - 2];
        let count = s.stack[s.stack.len() - 3];
        let rest = s.stack.take(s.stack.len() - 3);
        match (name, value_as_i32(count)) {
            (ValueV::Undefined, Some(c)) => {
                let cnt = arg_count_of(c);
                if rest.len() < cnt {
                    StepEnd::Defect
                } else {
                    StepEnd::Next(
                        SimState {
                            consts: s.consts,
                            stack: rest.take(rest.len() - cnt).push(
                                ValueV::OpRes(s.ops.len() as int),
                            ),
                            ops: s.ops.push(OpV::Call(receiver, popped_args(rest, cnt))),
                        },
                    )
                }
            },
            (ValueV::Str(n), Some(c)) => {
                let cnt = arg_count_of(c);
                if rest.len() < cnt {
                    StepEnd::Defect
                } else {
                    StepEnd::Next(
                        SimState {
                            consts: s.consts,
                            stack: rest.take(rest.len() - cnt).push(
                                ValueV::OpRes(s.ops.len() as int),
                            ),
                            ops: s.ops.push(
                                OpV::CallMethod(receiver, n, popped_args(rest, cnt)),
                            ),
                        },
                    )
                }
            },
            _ => StepEnd::Bail(SimState { stack: rest, ..s }),
        }
    }
}

/// What one source action does to the simulator state: the stack effect and
/// the emitted ops of each recognized action kind, a bail-out on operand
/// shapes that cannot be resolved statically, and a defect on malformed
/// input.
pub open spec fn step(s: SimState, a: ActionV) -> StepEnd {
    match a {
        ActionV::Play => StepEnd::Next(emit(s, OpV::Play)),
        ActionV::Stop => StepEnd::Next(emit(s, OpV::Stop)),
        ActionV::GotoFrame(n) => StepEnd::Next(emit(s, OpV::GotoFrame(n))),
        ActionV::GotoLabel(l) => StepEnd::Next(emit(s, OpV::GotoLabel(l))),
        ActionV::GetUrl(url, target) => StepEnd::Next(emit(s, OpV::GetUrl(url, target))),
        ActionV::ConstantPool(pool) => StepEnd::Next(SimState { consts: pool, ..s }),
        ActionV::Push(vals) => match push_all(s.consts, s.stack, vals) {
            Some(stack2) => StepEnd::Next(SimState { stack: stack2, ..s }),
            None => StepEnd::Defect,
        },
        ActionV::Pop => StepEnd::Next(
            SimState {
                stack: if s.stack.len() == 0 {
                    s.stack
                } else {
                    s.stack.drop_last()
                },
                ..s
            },
        ),
        ActionV::GetVariable => step_get_variable(s),
        ActionV::SetVariable => step_set_variable(s),
        ActionV::CallFunction => step_call_function(s),
        ActionV::CallMethod => step_call_method(s),
        ActionV::Unrecognized => StepEnd::Bail(s),
    }
}

/// Runs the actions in order from state `s`: action by action until the list
/// is exhausted, a bail-out truncates it, or a defect is hit.
pub open spec fn run(s: SimState, actions: Seq<ActionV>) -> RunEnd
    decreases actions.len(),
{
    if actions.len() == 0 {
        RunEnd::Done(s)
    } else {
        match step(s, actions[0]) {
            StepEnd::Next(s2) => run(s2, actions.drop_first()),
            StepEnd::Bail(s2) => RunEnd::Done(s2),
            StepEnd::Defect => RunEnd::Defect,
        }
    }
}

/// What `Code::compile` produces for a block: the op sequence from running
/// the block's actions from the empty state, or `None` when the block is
/// malformed. The terminal flow marker only ever discards a stack slot, and
/// the stack is not part of the output, so the marker cannot change the
/// emitted ops.
pub open spec fn compile_ops(b: BlockV) -> Option<Seq<OpV>> {
    match run(init_state(), b.actions) {
        RunEnd::Done(s) => Some(s.ops),
        RunEnd::Defect => None,
    }
}

} // verus!
