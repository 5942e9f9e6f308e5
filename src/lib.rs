//! A vocabulary drill: words are graded, re-rated and re-ordered round by
//! round, and a wrong answer starts a remediation exchange with an assistant
//! service, driven as a state machine.

pub mod remediation;
pub mod schedule;
pub mod word;
