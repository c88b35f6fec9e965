pub mod cairo_write;
pub mod macros;
pub mod sizer;
pub mod token_list;
pub mod write;
