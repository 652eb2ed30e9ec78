//! What the commands of the tool decide, apart from asking and printing.

pub mod users;
