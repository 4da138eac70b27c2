//! The intermediate representation: its types, the lowering into it, and
//! its validator.

pub mod ir_chunk;
pub mod ir_type_data;
pub mod ir_validator;
