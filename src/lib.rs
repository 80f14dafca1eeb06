//! Alternating-case ("mocking") text: every other letter upper case, with
//! non-letters passed through and not counted as a slot.

pub mod arg_parsing;
pub mod case_laws;
pub mod char_case;
pub mod text_conversion;
