//! Detection of process impersonation: running processes whose names are
//! within a small edit distance of a critical process name, but whose
//! executable does not sit at one of that process's approved locations.

pub mod detect;
pub mod enumerate;
pub mod laws;
pub mod model;
pub mod rules;
