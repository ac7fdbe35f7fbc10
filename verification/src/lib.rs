//! The reactive core of a declarative user interface: shared state cells with
//! leases and notifications, derived values, single-slot decorators, and the
//! analysis that finds which cells a piece of code captures.

pub mod tokens;
pub mod wrap_render;
pub mod analysis;
pub mod builtin;
pub mod capture;
pub mod cell;
pub mod codegen;
pub mod ctx;
pub mod derived;
pub mod expr;
pub mod fn_widget;
pub mod focus;
pub mod fold;
pub mod fragments;
pub mod geom;
pub mod hygiene;
pub mod idempotence;
pub mod into_child_compose;
pub mod listening;
pub mod lists;
pub mod locality;
pub mod manifest;
pub mod material;
pub mod names;
pub mod pointers;
pub mod recorded;
pub mod referred;
pub mod refs;
pub mod registry;
pub mod scope;
pub mod slots;
pub mod small;
pub mod sorting;
pub mod symbol;
