//! Process selection and termination: target matching, the kill policy,
//! the stop conditions of the scripted loop and the modal state machine of
//! the interactive browser.

pub mod text;
pub mod seqs;
pub mod model;
pub mod matcher;
pub mod provider;
pub mod policy;
pub mod session;
pub mod runloop;
pub mod screen;
