//! What the operations are for: what their results satisfy, and how two of
//! them relate, in terms of what goes in and what comes out.
pub mod areas;
pub mod beginnings;
pub mod casts;
pub mod commands;
pub mod displays;
pub mod focus;
pub mod hits;
pub mod keys;
pub mod lisp;
pub mod lock;
pub mod loops;
pub mod outputs;
pub mod places;
pub mod protocols;
pub mod redraws;
pub mod render;
pub mod scene;
pub mod session;
pub mod standalone;
pub mod surfaces;
pub mod text;
