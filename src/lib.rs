pub mod assoc;
pub mod bytecode;
pub mod compile;
pub mod heap;
pub mod record;
pub mod value;
pub mod vm;

pub use bytecode::{entry_symbol, Bytecode, CompileError, Compiled};
pub use compile::AstValue;
pub use heap::{Heap, LispHeap};
pub use record::{ConversionError, LispRecord, Target};
pub use value::{LispType, LispValue};
pub use vm::{Operator, RuntimeError, MAX_CALL_DEPTH};
