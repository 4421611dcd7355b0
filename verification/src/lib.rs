//! The verified core of a judge for operating-system course assignments:
//! which repositories and stages get polled, when a stage accepts work,
//! what commands are issued to poll, judge and record grades, and how the
//! output of those commands is read back.

pub mod error;
pub mod pipeline;
pub mod text;
