//! Administration: the commands an operator can send and the errors they can meet.
pub mod commands;
