//! A bounded-precision signed integer cell: a value is either NaN or an
//! integer whose two's-complement size is at most 257 bits.

pub mod magnitude;
pub mod behavior;
pub mod bitsize;
pub mod twos;
pub mod integer;

pub use magnitude::Int;
pub use behavior::{IntegerError, OperationBehavior, Checked, Quiet};
pub use bitsize::{bitsize, check_overflow};
pub use twos::twos_complement;
pub use integer::{
    IntegerData, process_value, unary_op, binary_op, process_single_result, process_double_result,
    construct_single_nan, construct_double_nan,
};
