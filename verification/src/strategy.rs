//! Strategy core: configuration, runtime state, persistent storage, locking and
//! the rate adjustment rules.

pub mod settings;
pub mod data;
pub mod lock;
pub mod stable;
pub mod executable;
pub mod run;
