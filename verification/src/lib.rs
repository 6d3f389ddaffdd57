//! A verified bridge onto a Lua-style stack interpreter.
//!
//! The crate models the interpreter surface that a host binding talks to: a
//! value stack addressed by signed indices, a heap of tables compared by
//! identity, a registry that roots heap values under integer keys, and a
//! reference-counted context that owns the instance.  On top of that core sit
//! the marshalling traits [`LuaRead`] and [`LuaWrite`], the tagged union
//! [`LuaValue`], the rooted reference type [`Table`], and the keyed-access
//! trait [`LuaIndex`].  Every operation carries a contract over the
//! mathematical model in [`model`], and the bridge laws (round-trips,
//! reference identity, lifecycle) are proved in [`laws`].

pub mod model;
mod value;
mod assoc;
pub mod context;
pub mod marshal;
pub mod table;
pub mod union;
pub mod state;
pub mod laws;

pub use context::LuaContext;
pub use marshal::{LuaRead, LuaWrite, DecodeError};
pub use table::{Table, LuaRef, LuaIndex};
pub use union::{LuaValue, AsLuaNumber, AsLuaText};
pub use state::State;
