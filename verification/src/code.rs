//! The translator's output form: a flat, append-only sequence of
//! side-effecting operations, each addressed by its position.

use vstd::prelude::*;
use crate::value::{Value, ValueV};

verus! {

/// A frame number in the hosting timeline.
#[derive(Debug, PartialEq)]
pub struct Frame(pub u16);

/// One intermediate operation: a single observable side effect. Operands are
/// either literal values or `Value::OpRes` back-references to the results of
/// earlier ops in the same sequence.
#[derive(Debug, PartialEq)]
pub enum Op {
    Play,
    Stop,
    GotoFrame(Frame),
    GotoLabel(String),
    GetUrl(String, String),
    GetVar(String),
    SetVar(String, Value),
    Call(Value, Vec<Value>),
    CallMethod(Value, String, Vec<Value>),
}

/// The mathematical view of an `Op`.
pub enum OpV {
    Play,
    Stop,
    GotoFrame(u16),
    GotoLabel(Seq<char>),
    GetUrl(Seq<char>, Seq<char>),
    GetVar(Seq<char>),
    SetVar(Seq<char>, ValueV),
    Call(ValueV, Seq<ValueV>),
    CallMethod(ValueV, Seq<char>, Seq<ValueV>),
}

/// The views of a sequence of values, element by element.
pub open spec fn values_view(v: Seq<Value>) -> Seq<ValueV> {
    v.map_values(|x: Value| x@)
}

impl View for Op {
    type V = OpV;

    open spec fn view(&self) -> OpV {
        match self {
            Op::Play => OpV::Play,
            Op::Stop => OpV::Stop,
            Op::GotoFrame(f) => OpV::GotoFrame(f.0),
            Op::GotoLabel(l) => OpV::GotoLabel(l@),
            Op::GetUrl(url, target) => OpV::GetUrl(url@, target@),
            Op::GetVar(name) => OpV::GetVar(name@),
            Op::SetVar(name, value) => OpV::SetVar(name@, value@),
            Op::Call(callee, args) => OpV::Call(callee@, values_view(args@)),
            Op::CallMethod(receiver, name, args) => OpV::CallMethod(
                receiver@,
                name@,
                values_view(args@),
            ),
        }
    }
}

/// The views of a sequence of ops, element by element.
pub open spec fn ops_view(v: Seq<Op>) -> Seq<OpV> {
    v.map_values(|o: Op| o@)
}

/// The finished artifact: the ordered op sequence produced for one block.
#[derive(Debug, PartialEq)]
pub struct Code {
    pub ops: Vec<Op>,
}

impl View for Code {
    type V = Seq<OpV>;

    open spec fn view(&self) -> Seq<OpV> {
        ops_view(self.ops@)
    }
}

/// The error that `Code::compile` reports for a malformed block: a stack
/// underflow, an out-of-range constant-pool read, or a register read (the
/// register file of a single block is never written, so it is always empty).
#[derive(Debug, PartialEq)]
pub struct MalformedInput;

} // verus!
