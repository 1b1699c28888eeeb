pub mod error;
pub mod event;
pub mod results;
pub mod session;

pub use error::KPerfError;
pub use event::{Arch, Event};
pub use results::Results;
pub use session::{Call, KPerf, Phase, Reply, Step, CONFIGURABLE_CLASS_MASK, MAX_COUNTERS};
