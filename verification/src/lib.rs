//! The host side of the Mersey engine in a browser page.
//!
//! A script of type `text/mersey` runs in the engine itself. When it touches the
//! page, the engine calls the host through a table of hooks. The host has two
//! tiers. A hot member, recognised when its name is interned, goes straight to
//! the native implementation behind its receiver; everything else, and whatever
//! the direct tier does not take, crosses through a reflective bridge into the
//! page's realm, which also owns the handles by which the engine names objects.
//!
//! This library is what the host decides. The work in the realm and in the
//! document is done by the embedder: every host call is a task (`task`) that names
//! the next piece of work, is told how it went, and ends in a reply. The hooks
//! that start tasks are in `calls`, what a thread keeps between them in `host`,
//! and what is promised of them all in `laws`.

pub mod atoms;
pub mod bridge;
pub mod calls;
pub mod canvas;
pub mod direct;
pub mod host;
pub mod hot;
pub mod laws;
pub mod meaning;
pub mod natives;
pub mod number;
pub mod operation;
pub mod protocol;
pub mod script;
pub mod table;
pub mod task;
pub mod text;
