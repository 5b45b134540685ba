pub mod call_tracer;
pub mod multivm_dispatcher;

pub use call_tracer::{Call, CallTracer};
pub use multivm_dispatcher::{MultiVmTracer, TracerDispatcher};
