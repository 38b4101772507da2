//! ASCII-art rendering of the big timer display.

pub mod digit_type;
pub mod digits;
