pub use crate::builder::BlockEncoder;
pub use crate::builder::FunctionBuilder;
pub use crate::builder::ProgramBuilder;
pub use crate::error::VmError;
pub use crate::heap::Heap;
pub use crate::program::Program;
pub use crate::runtime::Host;
pub use crate::runtime::Vm;
pub use crate::runtime::VmExecutionResult;
pub use crate::variant::Variant;
