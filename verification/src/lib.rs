//! Schema-migration registry for a small note-taking application.
//!
//! The library defines the versioned list of schema-change steps that bring a
//! fresh persistent store up to the current schema, together with an explicit
//! model of the store the steps act on: a current-version register plus the
//! set of tables and their columns. Applying the registry is a state machine:
//! each unapplied step is executed in version order and, on success, bumps the
//! recorded version; a failing step commits nothing and is fatal.

use vstd::prelude::*;

pub mod migration;
pub mod store;

verus! {

/// Payload of the demonstration event the application shell emits to its
/// front end. The shell attaches its own serialization to a copy of this
/// type; the library only defines the value.
pub struct DemoEvent(pub String);

/// The demonstration greeting: the pure text computed for a caller's name.
pub fn greeting(name: &str) -> (r: String)
    ensures
        r@ == "Hello, "@ + name@ + "! You've been greeted from Rust!"@,
{
    let s = "Hello, ".to_owned();
    let s = s.concat(name);
    s.concat("! You've been greeted from Rust!")
}

} // verus!
