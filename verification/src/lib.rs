//! A compile-time translator for one basic block of a legacy stack-machine
//! bytecode: it symbolically executes the block's actions, resolving operand
//! values where they are static, and emits a flat sequence of side-effecting
//! operations whose operands are literals or back-references to earlier
//! operations. Operand shapes that cannot be resolved statically make the
//! translation bail out and return the partial, safe result built so far.

pub mod block;
pub mod code;
pub mod compile;
pub mod laws;
pub mod sim;
pub mod value;
