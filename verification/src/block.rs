//! The translator's input form: one basic block, as an ordered action list
//! plus a terminal control-flow marker. The external bytecode parser is
//! expected to produce these plain values.

use vstd::prelude::*;

verus! {

/// One operand of a push action. Literal kinds carry their value directly
/// (floats as their IEEE 754 bit patterns); `Constant` names an entry of the
/// block's current constant pool, and `Register` names a register.
#[derive(Clone, Debug)]
pub enum PushValue {
    Undefined,
    Null,
    Boolean(bool),
    Sint32(i32),
    /// A 32-bit float literal, as its IEEE 754 bit pattern.
    Float32(u32),
    /// A 64-bit float literal, as its IEEE 754 bit pattern.
    Float64(u64),
    String(String),
    /// An index into the block's current constant pool.
    Constant(u16),
    /// An index into the block's register file.
    Register(u8),
}

/// The mathematical view of a `PushValue`.
pub enum PushValueV {
    Undefined,
    Null,
    Boolean(bool),
    Sint32(i32),
    Float32(u32),
    Float64(u64),
    String(Seq<char>),
    Constant(u16),
    Register(u8),
}

impl View for PushValue {
    type V = PushValueV;

    open spec fn view(&self) -> PushValueV {
        match self {
            PushValue::Undefined => PushValueV::Undefined,
            PushValue::Null => PushValueV::Null,
            PushValue::Boolean(b) => PushValueV::Boolean(*b),
            PushValue::Sint32(x) => PushValueV::Sint32(*x),
            PushValue::Float32(b) => PushValueV::Float32(*b),
            PushValue::Float64(b) => PushValueV::Float64(*b),
            PushValue::String(s) => PushValueV::String(s@),
            PushValue::Constant(i) => PushValueV::Constant(*i),
            PushValue::Register(i) => PushValueV::Register(*i),
        }
    }
}

/// One source action of the stack machine, restricted to the kinds this
/// translator recognizes; every other source action kind maps to
/// `Unrecognized`, on which translation bails out.
#[derive(Clone, Debug)]
pub enum Action {
    Play,
    Stop,
    GotoFrame(u16),
    GotoLabel(String),
    GetUrl(String, String),
    ConstantPool(Vec<String>),
    Push(Vec<PushValue>),
    Pop,
    GetVariable,
    SetVariable,
    CallFunction,
    CallMethod,
    Unrecognized,
}

/// The mathematical view of an `Action`.
pub enum ActionV {
    Play,
    Stop,
    GotoFrame(u16),
    GotoLabel(Seq<char>),
    GetUrl(Seq<char>, Seq<char>),
    ConstantPool(Seq<Seq<char>>),
    Push(Seq<PushValueV>),
    Pop,
    GetVariable,
    SetVariable,
    CallFunction,
    CallMethod,
    Unrecognized,
}

/// The views of a sequence of strings, element by element.
pub open spec fn strings_view(v: Seq<String>) -> Seq<Seq<char>> {
    v.map_values(|s: String| s@)
}

/// The views of a sequence of push operands, element by element.
pub open spec fn push_values_view(v: Seq<PushValue>) -> Seq<PushValueV> {
    v.map_values(|p: PushValue| p@)
}

impl View for Action {
    type V = ActionV;

    open spec fn view(&self) -> ActionV {
        match self {
            Action::Play => ActionV::Play,
            Action::Stop => ActionV::Stop,
            Action::GotoFrame(n) => ActionV::GotoFrame(*n),
            Action::GotoLabel(l) => ActionV::GotoLabel(l@),
            Action::GetUrl(url, target) => ActionV::GetUrl(url@, target@),
            Action::ConstantPool(pool) => ActionV::ConstantPool(strings_view(pool@)),
            Action::Push(values) => ActionV::Push(push_values_view(values@)),
            Action::Pop => ActionV::Pop,
            Action::GetVariable => ActionV::GetVariable,
            Action::SetVariable => ActionV::SetVariable,
            Action::CallFunction => ActionV::CallFunction,
            Action::CallMethod => ActionV::CallMethod,
            Action::Unrecognized => ActionV::Unrecognized,
        }
    }
}

/// The views of a sequence of actions, element by element.
pub open spec fn actions_view(v: Seq<Action>) -> Seq<ActionV> {
    v.map_values(|a: Action| a@)
}

/// The block's terminal control-flow marker. A plain wait means every frame
/// is already available and nothing is owed; a wait with an extra condition
/// left one more value on the stack, to be discarded; any other marker is
/// unrecognized, and translation completes with the ops produced so far.
#[derive(Clone, Debug)]
pub enum Flow {
    WaitForFrame,
    WaitForFrame2,
    Unrecognized,
}

/// One basic block: a straight-line action sequence and its exit marker.
#[derive(Clone, Debug)]
pub struct Block {
    pub actions: Vec<Action>,
    pub flow: Flow,
}

/// The mathematical view of a `Block`. The flow marker is already plain data
/// and is kept as it is.
pub struct BlockV {
    pub actions: Seq<ActionV>,
    pub flow: Flow,
}

impl View for Block {
    type V = BlockV;

    open spec fn view(&self) -> BlockV {
        BlockV { actions: actions_view(self.actions@), flow: self.flow }
    }
}

} // verus!
