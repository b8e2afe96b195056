//! A host-side bridge around an embedded ECMAScript engine: a dynamic value
//! type with JS-style coercion for crossing the host/script boundary, the
//! engine-handle and execution-environment lifecycle, and the registry that
//! exposes host callables to script code.
pub mod context;
pub mod error;
pub mod num;
pub mod runtime;
pub mod value;

pub use context::AllocationReport;
pub use context::Context;
pub use context::RunOutcome;
pub use error::Error;
pub use num::Num;
pub use runtime::RegistryEntry;
pub use runtime::Runtime;
pub use runtime::TrampolineCapture;
pub use value::Array;
pub use value::Object;
pub use value::Value;
pub use value::ValueModel;
