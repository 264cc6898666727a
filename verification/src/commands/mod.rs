//! What the commands decide, apart from the effects they cause.

pub mod install;
pub mod why;
pub mod add;
pub mod update;
