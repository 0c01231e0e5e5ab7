//! Academic term resolution: which term an instant falls in, which week of
//! that term it is, and the short label shown for it.
pub mod calendar;
pub mod resolve;
pub mod table;
pub mod term;
pub mod text;
pub mod zone;
