pub mod formatter;
pub mod op;

pub use op::FormatOp;
