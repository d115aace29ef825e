//! A weather station for the terminal: the rules by which a weather report
//! is requested, worded, coloured and shown, with every rule proved against
//! its statement.

pub mod decimal;
pub mod mood;
pub mod palette;
pub mod reading;
pub mod report;
pub mod request;
pub mod session;
pub mod tenths;
pub mod text;
