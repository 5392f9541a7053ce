//! The translation itself: walks one block's actions in order, mutating the
//! simulated state, and returns the emitted op sequence. The executable code
//! is proved to follow the step-by-step model in `sim` exactly.

use vstd::prelude::*;
use crate::block::{
    strings_view, Action, Block, Flow, PushValue,
};
use crate::code::{ops_view, values_view, Code, Frame, MalformedInput, Op};
use crate::sim::{
    arg_count_of, compile_ops, init_state, popped_args, push_all, resolve_push_value, run, step,
    RunEnd, SimState, StepEnd,
};
use crate::value::Value;

verus! {

/// The simulator state that a triple of executable values denotes.
pub open spec fn sim_view(consts: Seq<String>, stack: Seq<Value>, ops: Seq<Op>) -> SimState {
    SimState { consts: strings_view(consts), stack: values_view(stack), ops: ops_view(ops) }
}

proof fn lemma_values_view_push(v: Seq<Value>, x: Value)
    ensures
        values_view(v.push(x)) == values_view(v).push(x@),
{
    assert(values_view(v.push(x)) =~= values_view(v).push(x@));
}

proof fn lemma_values_view_take(v: Seq<Value>, k: int)
    requires
        0 <= k <= v.len(),
    ensures
        values_view(v.take(k)) == values_view(v).take(k),
{
    assert(values_view(v.take(k)) =~= values_view(v).take(k));
}

proof fn lemma_ops_view_push(v: Seq<Op>, x: Op)
    ensures
        ops_view(v.push(x)) == ops_view(v).push(x@),
{
    assert(ops_view(v.push(x)) =~= ops_view(v).push(x@));
}

proof fn lemma_skip_one<T>(s: Seq<T>, i: int)
    requires
        0 <= i < s.len(),
    ensures
        s.skip(i).len() == s.len() - i,
        s.skip(i)[0] == s[i],
        s.skip(i).drop_first() == s.skip(i + 1),
{
    assert(s.skip(i).drop_first() =~= s.skip(i + 1));
}

proof fn lemma_run_next(s: SimState, s2: SimState, actions: Seq<crate::block::ActionV>, i: int)
    requires
        0 <= i < actions.len(),
        step(s, actions[i]) == StepEnd::Next(s2),
    ensures
        run(s, actions.skip(i)) == run(s2, actions.skip(i + 1)),
{
    lemma_skip_one(actions, i);
}

proof fn lemma_run_bail(s: SimState, s2: SimState, actions: Seq<crate::block::ActionV>, i: int)
    requires
        0 <= i < actions.len(),
        step(s, actions[i]) == StepEnd::Bail(s2),
    ensures
        run(s, actions.skip(i)) == RunEnd::Done(s2),
{
    lemma_skip_one(actions, i);
}

proof fn lemma_run_defect(s: SimState, actions: Seq<crate::block::ActionV>, i: int)
    requires
        0 <= i < actions.len(),
        step(s, actions[i]) == StepEnd::Defect,
    ensures
        run(s, actions.skip(i)) == RunEnd::Defect,
{
    lemma_skip_one(actions, i);
}

/// Clones a string table entry by entry.
fn clone_strings(v: &Vec<String>) -> (r: Vec<String>)
    ensures
        r@ == v@,
{
    let mut r: Vec<String> = Vec::new();
    let mut j: usize = 0;
    while j < v.len()
        invariant
            j <= v@.len(),
            r@ == v@.take(j as int),
        decreases v@.len() - j,
    {
        let s = vstd::slice::slice_index_get(v.as_slice(), j);
        r.push(s.clone());
        proof {
            assert(r@ =~= v@.take(j as int + 1));
        }
        j += 1;
    }
    proof {
        assert(v@.take(v@.len() as int) =~= v@);
    }
    r
}

/// How many arguments an argument-count integer asks for, as a machine size.
fn count_args(c: i32) -> (r: usize)
    ensures
        r as nat == arg_count_of(c as int),
{
    if c <= 0 {
        0
    } else {
        c as usize
    }
}

/// Collects `cnt` arguments by repeated pops, so the collected order is the
/// reverse of the push order.
fn pop_args(stack: &mut Vec<Value>, cnt: usize) -> (args: Vec<Value>)
    requires
        cnt <= old(stack)@.len(),
    ensures
        values_view(final(stack)@) == values_view(old(stack)@).take(
            old(stack)@.len() - cnt,
        ),
        values_view(args@) == popped_args(values_view(old(stack)@), cnt as nat),
{
    let ghost stack0 = stack@;
    let mut args: Vec<Value> = Vec::new();
    let mut j: usize = 0;
    while j < cnt
        invariant
            j <= cnt,
            cnt <= stack0.len(),
            stack@ == stack0.take(stack0.len() - j),
            values_view(args@) == popped_args(values_view(stack0), j as nat),
        decreases cnt - j,
    {
        let ghost args0 = args@;
        let v = stack.pop().unwrap();
        args.push(v);
        proof {
            assert(stack@ =~= stack0.take(stack0.len() - (j + 1)));
            lemma_values_view_push(args0, v);
            assert(v == stack0[stack0.len() - 1 - j]);
            assert(values_view(args@) =~= popped_args(values_view(stack0), (j + 1) as nat));
        }
        j += 1;
    }
    proof {
        lemma_values_view_take(stack0, stack0.len() - cnt);
    }
    args
}

impl Code {
    /// Translates one basic block into its op sequence by symbolic execution
    /// of the action list, in order, from a fresh state: the emitted ops are
    /// exactly those of the step-by-step model, an unresolvable operand shape
    /// truncates the output at that point, and a malformed block (a stack
    /// underflow on a pop an action demands, an out-of-range constant-pool
    /// read, or a register read) is reported as `MalformedInput`.
    pub fn compile(block: Block) -> (r: Result<Code, MalformedInput>)
        ensures
            match r {
                Ok(code) => compile_ops(block@) == Some(code@),
                Err(_) => compile_ops(block@) is None,
            },
    {
        let mut consts: Vec<String> = Vec::new();
        let mut stack: Vec<Value> = Vec::new();
        let mut ops: Vec<Op> = Vec::new();
        let ghost acts = block@.actions;
        let mut i: usize = 0;
        let mut bailed: bool = false;
        let n: usize = block.actions.len();
        proof {
            assert(acts.skip(0) =~= acts);
            assert(strings_view(consts@) =~= Seq::<Seq<char>>::empty());
            assert(values_view(stack@) =~= Seq::<crate::value::ValueV>::empty());
            assert(ops_view(ops@) =~= Seq::<crate::code::OpV>::empty());
        }
        while i < n && !bailed
            invariant
                i <= n,
                n == block.actions@.len(),
                acts == block@.actions,
                acts.len() == n,
                !bailed ==> run(init_state(), acts) == run(
                    sim_view(consts@, stack@, ops@),
                    acts.skip(i as int),
                ),
                bailed ==> run(init_state(), acts) == RunEnd::Done(
                    sim_view(consts@, stack@, ops@),
                ),
            decreases n - i,
        {
            let ghost pre = sim_view(consts@, stack@, ops@);
            let a = vstd::slice::slice_index_get(block.actions.as_slice(), i);
            proof {
                assert(a@ == acts[i as int]);
            }
            match a {
                Action::Play => {
                    let ghost ops0 = ops@;
                    ops.push(Op::Play);
                    proof {
                        lemma_ops_view_push(ops0, Op::Play);
                        assert(step(pre, acts[i as int]) == StepEnd::Next(
                            sim_view(consts@, stack@, ops@),
                        ));
                        lemma_run_next(pre, sim_view(consts@, stack@, ops@), acts, i as int);
                    }
                },
                Action::Stop => {
                    let ghost ops0 = ops@;
                    ops.push(Op::Stop);
                    proof {
                        lemma_ops_view_push(ops0, Op::Stop);
                        assert(step(pre, acts[i as int]) == StepEnd::Next(
                            sim_view(consts@, stack@, ops@),
                        ));
                        lemma_run_next(pre, sim_view(consts@, stack@, ops@), acts, i as int);
                    }
                },
                Action::GotoFrame(frame) => {
                    let ghost ops0 = ops@;
                    let op = Op::GotoFrame(Frame(*frame));
                    ops.push(op);
                    proof {
                        lemma_ops_view_push(ops0, op);
                        assert(step(pre, acts[i as int]) == StepEnd::Next(
                            sim_view(consts@, stack@, ops@),
                        ));
                        lemma_run_next(pre, sim_view(consts@, stack@, ops@), acts, i as int);
                    }
                },
                Action::GotoLabel(label) => {
                    let ghost ops0 = ops@;
                    let op = Op::GotoLabel(label.clone());
                    ops.push(op);
                    proof {
                        lemma_ops_view_push(ops0, op);
                        assert(step(pre, acts[i as int]) == StepEnd::Next(
                            sim_view(consts@, stack@, ops@),
                        ));
                        lemma_run_next(pre, sim_view(consts@, stack@, ops@), acts, i as int);
                    }
                },
                Action::GetUrl(url, target) => {
                    let ghost ops0 = ops@;
                    let op = Op::GetUrl(url.clone(), target.clone());
                    ops.push(op);
                    proof {
                        lemma_ops_view_push(ops0, op);
                        assert(step(pre, acts[i as int]) == StepEnd::Next(
                            sim_view(consts@, stack@, ops@),
                        ));
                        lemma_run_next(pre, sim_view(consts@, stack@, ops@), acts, i as int);
                    }
                },
                Action::ConstantPool(pool) => {
                    consts = clone_strings(pool);
                    proof {
                        assert(step(pre, acts[i as int]) == StepEnd::Next(
                            sim_view(consts@, stack@, ops@),
                        ));
                        lemma_run_next(pre, sim_view(consts@, stack@, ops@), acts, i as int);
                    }
                },
                Action::Push(values) => {
                    let ghost consts_v = strings_view(consts@);
                    let ghost stack_v = values_view(stack@);
                    let ghost pvs = crate::block::push_values_view(values@);
                    let m: usize = values.len();
                    proof {
                        assert(pvs.skip(0) =~= pvs);
                    }
                    let mut j: usize = 0;
                    while j < m
                        invariant
                            j <= m,
                            m == values@.len(),
                            pvs == crate::block::push_values_view(values@),
                            pvs.len() == m,
                            consts_v == strings_view(consts@),
                            acts == block@.actions,
                            0 <= i < acts.len(),
                            acts[i as int] == crate::block::ActionV::Push(pvs),
                            pre == (SimState {
                                consts: consts_v,
                                stack: stack_v,
                                ops: ops_view(ops@),
                            }),
                            run(init_state(), acts) == run(pre, acts.skip(i as int)),
                            push_all(consts_v, stack_v, pvs) == push_all(
                                consts_v,
                                values_view(stack@),
                                pvs.skip(j as int),
                            ),
                        decreases m - j,
                    {
                        let ghost stack1 = stack@;
                        let pv = vstd::slice::slice_index_get(values.as_slice(), j);
                        proof {
                            assert(pv@ == pvs[j as int]);
                            lemma_skip_one(pvs, j as int);
                        }
                        match pv {
                            PushValue::Undefined => {
                                stack.push(Value::Undefined);
                                proof {
                                    lemma_values_view_push(stack1, Value::Undefined);
                                }
                            },
                            PushValue::Null => {
                                stack.push(Value::Null);
                                proof {
                                    lemma_values_view_push(stack1, Value::Null);
                                }
                            },
                            PushValue::Boolean(b) => {
                                let v = Value::Bool(*b);
                                stack.push(v);
                                proof {
                                    lemma_values_view_push(stack1, v);
                                }
                            },
                            PushValue::Sint32(x) => {
                                let v = Value::I32(*x);
                                stack.push(v);
                                proof {
                                    lemma_values_view_push(stack1, v);
                                }
                            },
                            PushValue::Float32(b) => {
                                let v = Value::F32(*b);
                                stack.push(v);
                                proof {
                                    lemma_values_view_push(stack1, v);
                                }
                            },
                            PushValue::Float64(b) => {
                                let v = Value::F64(*b);
                                stack.push(v);
                                proof {
                                    lemma_values_view_push(stack1, v);
                                }
                            },
                            PushValue::String(s) => {
                                let v = Value::Str(s.clone());
                                stack.push(v);
                                proof {
                                    lemma_values_view_push(stack1, v);
                                }
                            },
                            PushValue::Constant(ci) => {
                                if (*ci as usize) < consts.len() {
                                    let s = vstd::slice::slice_index_get(
                                        consts.as_slice(),
                                        *ci as usize,
                                    );
                                    let v = Value::Str(s.clone());
                                    stack.push(v);
                                    proof {
                                        lemma_values_view_push(stack1, v);
                                        assert(v@ == crate::value::ValueV::Str(
                                            consts_v[*ci as int],
                                        ));
                                    }
                                } else {
                                    proof {
                                        assert(resolve_push_value(consts_v, pvs[j as int])
                                            is None);
                                        assert(push_all(
                                            consts_v,
                                            values_view(stack@),
                                            pvs.skip(j as int),
                                        ) is None);
                                        assert(step(pre, acts[i as int]) == StepEnd::Defect);
                                        lemma_run_defect(pre, acts, i as int);
                                    }
                                    return Err(MalformedInput);
                                }
                            },
                            PushValue::Register(_) => {
                                proof {
                                    assert(resolve_push_value(consts_v, pvs[j as int]) is None);
                                    assert(push_all(
                                        consts_v,
                                        values_view(stack@),
                                        pvs.skip(j as int),
                                    ) is None);
                                    assert(step(pre, acts[i as int]) == StepEnd::Defect);
                                    lemma_run_defect(pre, acts, i as int);
                                }
                                return Err(MalformedInput);
                            },
                        }
                        j += 1;
                    }
                    proof {
                        assert(pvs.skip(m as int) =~= Seq::<crate::block::PushValueV>::empty());
                        assert(push_all(consts_v, stack_v, pvs) == Some(values_view(stack@)));
                        assert(step(pre, acts[i as int]) == StepEnd::Next(
                            sim_view(consts@, stack@, ops@),
                        ));
                        lemma_run_next(pre, sim_view(consts@, stack@, ops@), acts, i as int);
                    }
                },
                Action::Pop => {
                    let ghost stack0 = stack@;
                    stack.pop();
                    proof {
                        if stack0.len() > 0 {
                            lemma_values_view_take(stack0, stack0.len() - 1);
                            assert(values_view(stack0).drop_last() == values_view(
                                stack0,
                            ).take(stack0.len() - 1));
                        }
                        assert(step(pre, acts[i as int]) == StepEnd::Next(
                            sim_view(consts@, stack@, ops@),
                        ));
                        lemma_run_next(pre, sim_view(consts@, stack@, ops@), acts, i as int);
                    }
                },
                Action::GetVariable => {
                    let name = match stack.pop() {
                        Some(v) => v,
                        None => {
                            proof {
                                assert(step(pre, acts[i as int]) == StepEnd::Defect);
                                lemma_run_defect(pre, acts, i as int);
                            }
                            return Err(MalformedInput);
                        },
                    };
                    match name {
                        Value::Str(nm) => {
                            let ghost ops0 = ops@;
                            let op = Op::GetVar(nm);
                            ops.push(op);
                            let idx = ops.len() - 1;
                            let ghost stack1 = stack@;
                            stack.push(Value::OpRes(idx));
                            proof {
                                lemma_ops_view_push(ops0, op);
                                lemma_values_view_push(stack1, Value::OpRes(idx));
                                assert(values_view(stack1) =~= pre.stack.drop_last());
                                assert(step(pre, acts[i as int]) == StepEnd::Next(
                                    sim_view(consts@, stack@, ops@),
                                ));
                                lemma_run_next(
                                    pre,
                                    sim_view(consts@, stack@, ops@),
                                    acts,
                                    i as int,
                                );
                            }
                        },
                        _ => {
                            bailed = true;
                            proof {
                                assert(values_view(stack@) =~= pre.stack.drop_last());
                                assert(step(pre, acts[i as int]) == StepEnd::Bail(
                                    sim_view(consts@, stack@, ops@),
                                ));
                                lemma_run_bail(
                                    pre,
                                    sim_view(consts@, stack@, ops@),
                                    acts,
                                    i as int,
                                );
                            }
                        },
                    }
                },
                Action::SetVariable => {
                    let value = match stack.pop() {
                        Some(v) => v,
                        None => {
                            proof {
                                assert(step(pre, acts[i as int]) == StepEnd::Defect);
                                lemma_run_defect(pre, acts, i as int);
                            }
                            return Err(MalformedInput);
                        },
                    };
                    let name = match stack.pop() {
                        Some(v) => v,
                        None => {
                            proof {
                                assert(step(pre, acts[i as int]) == StepEnd::Defect);
                                lemma_run_defect(pre, acts, i as int);
                            }
                            return Err(MalformedInput);
                        },
                    };
                    proof {
                        assert(values_view(stack@) =~= pre.stack.take(pre.stack.len() - 2));
                    }
                    match name {
                        Value::Str(nm) => {
                            let ghost ops0 = ops@;
                            let op = Op::SetVar(nm, value);
                            ops.push(op);
                            let idx = ops.len() - 1;
                            let ghost stack1 = stack@;
                            stack.push(Value::OpRes(idx));
                            proof {
                                lemma_ops_view_push(ops0, op);
                                lemma_values_view_push(stack1, Value::OpRes(idx));
                                assert(step(pre, acts[i as int]) == StepEnd::Next(
                                    sim_view(consts@, stack@, ops@),
                                ));
                                lemma_run_next(
                                    pre,
                                    sim_view(consts@, stack@, ops@),
                                    acts,
                                    i as int,
                                );
                            }
                        },
                        _ => {
                            bailed = true;
                            proof {
                                assert(step(pre, acts[i as int]) == StepEnd::Bail(
                                    sim_view(consts@, stack@, ops@),
                                ));
                                lemma_run_bail(
                                    pre,
                                    sim_view(consts@, stack@, ops@),
                                    acts,
                                    i as int,
                                );
                            }
                        },
                    }
                },
                Action::CallFunction => {
                    let name = match stack.pop() {
                        Some(v) => v,
                        None => {
                            proof {
                                assert(step(pre, acts[i as int]) == StepEnd::Defect);
                                lemma_run_defect(pre, acts, i as int);
                            }
                            return Err(MalformedInput);
                        },
                    };
                    let count = match stack.pop() {
                        Some(v) => v,
                        None => {
                            proof {
                                assert(step(pre, acts[i as int]) == StepEnd::Defect);
                                lemma_run_defect(pre, acts, i as int);
                            }
                            return Err(MalformedInput);
                        },
                    };
                    proof {
                        assert(values_view(stack@) =~= pre.stack.take(pre.stack.len() - 2));
                    }
                    let c_opt = count.as_i32();
                    match (name, c_opt) {
                        (Value::Str(nm), Some(c)) => {
                            let cnt = count_args(c);
                            if stack.len() < cnt {
                                proof {
                                    assert(step(pre, acts[i as int]) == StepEnd::Defect);
                                    lemma_run_defect(pre, acts, i as int);
                                }
                                return Err(MalformedInput);
                            }
                            let args = pop_args(&mut stack, cnt);
                            let ghost ops0 = ops@;
                            let op1 = Op::GetVar(nm);
                            ops.push(op1);
                            let gv_idx = ops.len() - 1;
                            let ghost ops1 = ops@;
                            let op2 = Op::Call(Value::OpRes(gv_idx), args);
                            ops.push(op2);
                            let call_idx = ops.len() - 1;
                            let ghost stack1 = stack@;
                            stack.push(Value::OpRes(call_idx));
                            proof {
                                lemma_ops_view_push(ops0, op1);
                                lemma_ops_view_push(ops1, op2);
                                lemma_values_view_push(stack1, Value::OpRes(call_idx));
                                assert(step(pre, acts[i as int]) == StepEnd::Next(
                                    sim_view(consts@, stack@, ops@),
                                ));
                                lemma_run_next(
                                    pre,
                                    sim_view(consts@, stack@, ops@),
                                    acts,
                                    i as int,
                                );
                            }
                        },
                        _ => {
                            bailed = true;
                            proof {
                                assert(step(pre, acts[i as int]) == StepEnd::Bail(
                                    sim_view(consts@, stack@, ops@),
                                ));
                                lemma_run_bail(
                                    pre,
                                    sim_view(consts@, stack@, ops@),
                                    acts,
                                    i as int,
                                );
                            }
                        },
                    }
                },
                Action::CallMethod => {
                    let name0 = match stack.pop() {
                        Some(v) => v,
                        None => {
                            proof {
                                assert(step(pre, acts[i as int]) == StepEnd::Defect);
                                lemma_run_defect(pre, acts, i as int);
                            }
                            return Err(MalformedInput);
                        },
                    };
                    let receiver = match stack.pop() {
                        Some(v) => v,
                        None => {
                            proof {
                                assert(step(pre, acts[i as int]) == StepEnd::Defect);
                                lemma_run_defect(pre, acts, i as int);
                            }
                            return Err(MalformedInput);
                        },
                    };
                    let count = match stack.pop() {
                        Some(v) => v,
                        None => {
                            proof {
                                assert(step(pre, acts[i as int]) == StepEnd::Defect);
                                lemma_run_defect(pre, acts, i as int);
                            }
                            return Err(MalformedInput);
                        },
                    };
                    proof {
                        assert(values_view(stack@) =~= pre.stack.take(pre.stack.len() - 3));
                    }
                    let name = match name0 {
                        Value::Str(s) => {
                            if s.as_str().is_empty() {
                                Value::Undefined
                            } else {
                                Value::Str(s)
                            }
                        },
                        other => other,
                    };
                    proof {
                        assert(name@ == crate::sim::normalize_method_name(pre.stack.last()));
                    }
                    let c_opt = count.as_i32();
                    match (name, c_opt) {
                        (Value::Undefined, Some(c)) => {
                            let cnt = count_args(c);
                            if stack.len() < cnt {
                                proof {
                                    assert(step(pre, acts[i as int]) == StepEnd::Defect);
                                    lemma_run_defect(pre, acts, i as int);
                                }
                                return Err(MalformedInput);
                            }
                            let args = pop_args(&mut stack, cnt);
                            let ghost ops0 = ops@;
                            let op = Op::Call(receiver, args);
                            ops.push(op);
                            let idx = ops.len() - 1;
                            let ghost stack1 = stack@;
                            stack.push(Value::OpRes(idx));
                            proof {
                                lemma_ops_view_push(ops0, op);
                                lemma_values_view_push(stack1, Value::OpRes(idx));
                                assert(step(pre, acts[i as int]) == StepEnd::Next(
                                    sim_view(consts@, stack@, ops@),
                                ));
                                lemma_run_next(
                                    pre,
                                    sim_view(consts@, stack@, ops@),
                                    acts,
                                    i as int,
                                );
                            }
                        },
                        (Value::Str(nm), Some(c)) => {
                            let cnt = count_args(c);
                            if stack.len() < cnt {
                                proof {
                                    assert(step(pre, acts[i as int]) == StepEnd::Defect);
                                    lemma_run_defect(pre, acts, i as int);
                                }
                                return Err(MalformedInput);
                            }
                            let args = pop_args(&mut stack, cnt);
                            let ghost ops0 = ops@;
                            let op = Op::CallMethod(receiver, nm, args);
                            ops.push(op);
                            let idx = ops.len() - 1;
                            let ghost stack1 = stack@;
                            stack.push(Value::OpRes(idx));
                            proof {
                                lemma_ops_view_push(ops0, op);
                                lemma_values_view_push(stack1, Value::OpRes(idx));
                                assert(step(pre, acts[i as int]) == StepEnd::Next(
                                    sim_view(consts@, stack@, ops@),
                                ));
                                lemma_run_next(
                                    pre,
                                    sim_view(consts@, stack@, ops@),
                                    acts,
                                    i as int,
                                );
                            }
                        },
                        _ => {
                            bailed = true;
                            proof {
                                assert(step(pre, acts[i as int]) == StepEnd::Bail(
                                    sim_view(consts@, stack@, ops@),
                                ));
                                lemma_run_bail(
                                    pre,
                                    sim_view(consts@, stack@, ops@),
                                    acts,
                                    i as int,
                                );
                            }
                        },
                    }
                },
                Action::Unrecognized => {
                    bailed = true;
                    proof {
                        assert(step(pre, acts[i as int]) == StepEnd::Bail(
                            sim_view(consts@, stack@, ops@),
                        ));
                        lemma_run_bail(pre, sim_view(consts@, stack@, ops@), acts, i as int);
                    }
                },
            }
            i += 1;
        }
        proof {
            if !bailed {
                assert(acts.skip(n as int) =~= Seq::<crate::block::ActionV>::empty());
            }
            assert(run(init_state(), acts) == RunEnd::Done(sim_view(consts@, stack@, ops@)));
        }
        let ghost done_ops = ops_view(ops@);
        match &block.flow {
            Flow::WaitForFrame => {},
            Flow::WaitForFrame2 => {
                stack.pop();
            },
            Flow::Unrecognized => {},
        }
        proof {
            assert(compile_ops(block@) == Some(done_ops));
        }
        Ok(Code { ops })
    }
}

} // verus!
