//! End-to-end checks of the block translation: push-order conventions,
//! constant-pool resolution, the call rules, bail-outs, flow epilogue, and
//! the malformed-input errors.

use avm1_compile::block::{Action, Block, Flow, PushValue};
use avm1_compile::code::{Code, Frame, MalformedInput, Op};
use avm1_compile::value::Value;

fn compile(actions: Vec<Action>, flow: Flow) -> Result<Code, MalformedInput> {
    Code::compile(Block { actions, flow })
}

fn ops_of(actions: Vec<Action>, flow: Flow) -> Vec<Op> {
    compile(actions, flow).expect("block should compile").ops
}

#[test]
fn plain_actions_map_one_to_one() {
    let ops = ops_of(
        vec![
            Action::Play,
            Action::Stop,
            Action::GotoFrame(7),
            Action::GotoLabel(String::from("intro")),
            Action::GetUrl(String::from("u"), String::from("t")),
        ],
        Flow::WaitForFrame,
    );
    assert_eq!(
        ops,
        vec![
            Op::Play,
            Op::Stop,
            Op::GotoFrame(Frame(7)),
            Op::GotoLabel(String::from("intro")),
            Op::GetUrl(String::from("u"), String::from("t")),
        ]
    );
}

#[test]
fn push_order_first_pushed_is_deepest() {
    // "x" is pushed first and 42 second, so set-variable pops 42 as the
    // value and "x" as the name
    let ops = ops_of(
        vec![
            Action::Push(vec![
                PushValue::String(String::from("x")),
                PushValue::Sint32(42),
            ]),
            Action::SetVariable,
        ],
        Flow::WaitForFrame,
    );
    assert_eq!(ops, vec![Op::SetVar(String::from("x"), Value::I32(42))]);
}

#[test]
fn constant_pool_entry_at_time_of_push() {
    // the first reference resolves against the first pool, the second
    // against its wholesale replacement
    let ops = ops_of(
        vec![
            Action::ConstantPool(vec![String::from("name")]),
            Action::Push(vec![PushValue::Constant(0)]),
            Action::ConstantPool(vec![String::from("alpha"), String::from("beta")]),
            Action::Push(vec![PushValue::Constant(1)]),
            Action::SetVariable,
        ],
        Flow::WaitForFrame,
    );
    assert_eq!(
        ops,
        vec![Op::SetVar(
            String::from("name"),
            Value::Str(String::from("beta"))
        )]
    );
}

#[test]
fn get_variable_emits_and_leaves_result() {
    let ops = ops_of(
        vec![
            Action::Push(vec![PushValue::String(String::from("v"))]),
            Action::GetVariable,
        ],
        Flow::WaitForFrame,
    );
    assert_eq!(ops, vec![Op::GetVar(String::from("v"))]);
}

#[test]
fn call_function_two_args_in_pop_order() {
    // arguments 1 and 2 are pushed first, then the count, then the name;
    // the call's argument list is collected by pops, so it is reversed
    let mut actions = vec![
        Action::Push(vec![
            PushValue::Sint32(1),
            PushValue::Sint32(2),
            PushValue::Sint32(2),
            PushValue::String(String::from("f")),
        ]),
        Action::CallFunction,
    ];
    let ops = ops_of(actions.clone(), Flow::WaitForFrame);
    assert_eq!(
        ops,
        vec![
            Op::GetVar(String::from("f")),
            Op::Call(
                Value::OpRes(0),
                vec![Value::I32(2), Value::I32(1)]
            ),
        ]
    );

    // the call's result stays on the symbolic stack as a back-reference to
    // op 1: a following one-argument call consumes it
    actions.push(Action::Push(vec![
        PushValue::Sint32(1),
        PushValue::String(String::from("g")),
    ]));
    actions.push(Action::CallFunction);
    let ops = ops_of(actions, Flow::WaitForFrame);
    assert_eq!(
        ops,
        vec![
            Op::GetVar(String::from("f")),
            Op::Call(
                Value::OpRes(0),
                vec![Value::I32(2), Value::I32(1)]
            ),
            Op::GetVar(String::from("g")),
            Op::Call(Value::OpRes(2), vec![Value::OpRes(1)]),
        ]
    );
}

#[test]
fn call_function_negative_count_takes_no_args() {
    let ops = ops_of(
        vec![
            Action::Push(vec![
                PushValue::Sint32(-3),
                PushValue::String(String::from("f")),
            ]),
            Action::CallFunction,
        ],
        Flow::WaitForFrame,
    );
    assert_eq!(
        ops,
        vec![
            Op::GetVar(String::from("f")),
            Op::Call(Value::OpRes(0), vec![]),
        ]
    );
}

#[test]
fn call_function_float_count_coerces_exactly() {
    let ops = ops_of(
        vec![
            Action::Push(vec![
                PushValue::Sint32(7),
                PushValue::Sint32(8),
                PushValue::Float64((2.0f64).to_bits()),
                PushValue::String(String::from("f")),
            ]),
            Action::CallFunction,
        ],
        Flow::WaitForFrame,
    );
    assert_eq!(
        ops,
        vec![
            Op::GetVar(String::from("f")),
            Op::Call(
                Value::OpRes(0),
                vec![Value::I32(8), Value::I32(7)]
            ),
        ]
    );
}

#[test]
fn call_function_inexact_float_count_bails() {
    let ops = ops_of(
        vec![
            Action::Push(vec![
                PushValue::Float32((2.5f32).to_bits()),
                PushValue::String(String::from("f")),
            ]),
            Action::CallFunction,
            Action::Play,
        ],
        Flow::WaitForFrame,
    );
    assert_eq!(ops, vec![]);
}

#[test]
fn call_method_named() {
    let ops = ops_of(
        vec![
            Action::Push(vec![
                PushValue::Sint32(1),
                PushValue::Sint32(1),
                PushValue::String(String::from("obj")),
                PushValue::String(String::from("m")),
            ]),
            Action::CallMethod,
        ],
        Flow::WaitForFrame,
    );
    assert_eq!(
        ops,
        vec![Op::CallMethod(
            Value::Str(String::from("obj")),
            String::from("m"),
            vec![Value::I32(1)]
        )]
    );
}

#[test]
fn call_method_empty_name_is_undefined_marker() {
    let with_empty = ops_of(
        vec![
            Action::Push(vec![
                PushValue::Sint32(0),
                PushValue::String(String::from("obj")),
                PushValue::String(String::new()),
            ]),
            Action::CallMethod,
        ],
        Flow::WaitForFrame,
    );
    let with_undefined = ops_of(
        vec![
            Action::Push(vec![
                PushValue::Sint32(0),
                PushValue::String(String::from("obj")),
                PushValue::Undefined,
            ]),
            Action::CallMethod,
        ],
        Flow::WaitForFrame,
    );
    assert_eq!(
        with_empty,
        vec![Op::Call(Value::Str(String::from("obj")), vec![])]
    );
    assert_eq!(with_empty, with_undefined);
}

#[test]
fn get_variable_dynamic_name_halts_translation() {
    // the popped name is an integer: nothing is emitted for the read, and
    // every action after it is absent from the output
    let ops = ops_of(
        vec![
            Action::Play,
            Action::Push(vec![PushValue::Sint32(5)]),
            Action::GetVariable,
            Action::Stop,
            Action::Play,
        ],
        Flow::WaitForFrame,
    );
    assert_eq!(ops, vec![Op::Play]);
}

#[test]
fn set_variable_dynamic_name_halts_translation() {
    let ops = ops_of(
        vec![
            Action::Push(vec![PushValue::Null, PushValue::Sint32(1)]),
            Action::SetVariable,
            Action::Stop,
        ],
        Flow::WaitForFrame,
    );
    assert_eq!(ops, vec![]);
}

#[test]
fn unrecognized_action_halts_translation() {
    let ops = ops_of(
        vec![Action::Play, Action::Unrecognized, Action::Stop],
        Flow::WaitForFrame,
    );
    assert_eq!(ops, vec![Op::Play]);
}

#[test]
fn pop_discards_and_never_underflows() {
    let ops = ops_of(
        vec![
            Action::Push(vec![
                PushValue::String(String::from("x")),
                PushValue::Sint32(1),
                PushValue::Sint32(2),
            ]),
            Action::Pop,
            Action::SetVariable,
        ],
        Flow::WaitForFrame,
    );
    assert_eq!(ops, vec![Op::SetVar(String::from("x"), Value::I32(1))]);

    // a pop on an empty stack is a silent no-op, not an underflow
    let ops = ops_of(vec![Action::Pop, Action::Play], Flow::WaitForFrame);
    assert_eq!(ops, vec![Op::Play]);
}

#[test]
fn compiling_twice_yields_identical_code() {
    let build = || {
        vec![
            Action::ConstantPool(vec![String::from("k")]),
            Action::Push(vec![
                PushValue::Constant(0),
                PushValue::Float64((3.0f64).to_bits()),
            ]),
            Action::SetVariable,
            Action::Play,
        ]
    };
    let first = compile(build(), Flow::WaitForFrame).unwrap();
    let second = compile(build(), Flow::WaitForFrame).unwrap();
    assert_eq!(first, second);
}

#[test]
fn flow_marker_does_not_change_the_output() {
    let build = || {
        vec![
            Action::Push(vec![
                PushValue::String(String::from("x")),
                PushValue::Sint32(9),
            ]),
            Action::SetVariable,
            Action::Stop,
        ]
    };
    let plain = ops_of(build(), Flow::WaitForFrame);
    let with_condition = ops_of(build(), Flow::WaitForFrame2);
    let unknown = ops_of(build(), Flow::Unrecognized);
    assert_eq!(plain, with_condition);
    assert_eq!(plain, unknown);

    // the extra discard applies to an empty stack without harm
    let empty = ops_of(vec![Action::Play], Flow::WaitForFrame2);
    assert_eq!(empty, vec![Op::Play]);
}

#[test]
fn call_method_dynamic_shapes_bail() {
    // a method name that is neither a string nor the undefined marker
    let ops = ops_of(
        vec![
            Action::Push(vec![
                PushValue::Sint32(0),
                PushValue::String(String::from("obj")),
                PushValue::Null,
            ]),
            Action::CallMethod,
            Action::Play,
        ],
        Flow::WaitForFrame,
    );
    assert_eq!(ops, vec![]);

    // a string name with a non-numeric argument count
    let ops = ops_of(
        vec![
            Action::Push(vec![
                PushValue::String(String::from("count")),
                PushValue::String(String::from("obj")),
                PushValue::String(String::from("m")),
            ]),
            Action::CallMethod,
            Action::Play,
        ],
        Flow::WaitForFrame,
    );
    assert_eq!(ops, vec![]);
}

#[test]
fn flow_discard_applies_after_a_bail_out() {
    // translation bails on the dynamic name; the extra-condition marker then
    // discards a slot from the abandoned stack without changing the output
    let build = || {
        vec![
            Action::Push(vec![PushValue::Sint32(1), PushValue::Sint32(2)]),
            Action::GetVariable,
            Action::Stop,
        ]
    };
    let with_condition = ops_of(build(), Flow::WaitForFrame2);
    let plain = ops_of(build(), Flow::WaitForFrame);
    assert_eq!(with_condition, vec![]);
    assert_eq!(with_condition, plain);
}

#[test]
fn register_read_is_malformed() {
    let r = compile(
        vec![Action::Push(vec![PushValue::Register(0)])],
        Flow::WaitForFrame,
    );
    assert_eq!(r, Err(MalformedInput));
}

#[test]
fn constant_out_of_range_is_malformed() {
    let r = compile(
        vec![Action::Push(vec![PushValue::Constant(0)])],
        Flow::WaitForFrame,
    );
    assert_eq!(r, Err(MalformedInput));

    let r = compile(
        vec![
            Action::ConstantPool(vec![String::from("only")]),
            Action::Push(vec![PushValue::Constant(1)]),
        ],
        Flow::WaitForFrame,
    );
    assert_eq!(r, Err(MalformedInput));
}

#[test]
fn stack_underflow_is_malformed() {
    assert_eq!(
        compile(vec![Action::GetVariable], Flow::WaitForFrame),
        Err(MalformedInput)
    );
    assert_eq!(
        compile(
            vec![
                Action::Push(vec![PushValue::Sint32(1)]),
                Action::SetVariable
            ],
            Flow::WaitForFrame
        ),
        Err(MalformedInput)
    );
    // the name pops fine, but five arguments are owed on an empty stack
    assert_eq!(
        compile(
            vec![
                Action::Push(vec![
                    PushValue::Sint32(5),
                    PushValue::String(String::from("f")),
                ]),
                Action::CallFunction
            ],
            Flow::WaitForFrame
        ),
        Err(MalformedInput)
    );
    assert_eq!(
        compile(
            vec![
                Action::Push(vec![
                    PushValue::String(String::from("obj")),
                    PushValue::String(String::from("m")),
                ]),
                Action::CallMethod
            ],
            Flow::WaitForFrame
        ),
        Err(MalformedInput)
    );
}

#[test]
fn empty_block_compiles_to_empty_code() {
    let code = compile(vec![], Flow::WaitForFrame).unwrap();
    assert_eq!(code.ops, vec![]);
}
