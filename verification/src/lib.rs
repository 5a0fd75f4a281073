//! Tile acquisition for a map renderer: which tiles a view needs, which of
//! them are already in flight or resident, and what is handed to the
//! execution substrate that fetches and decodes them.
//!
//! - [`coords`]: tile coordinates and their quad keys.
//! - [`layers`], [`style`]: the set of layer names that a style draws from.
//! - [`view`]: camera and zoom with their references, and the tiles in view.
//! - [`store`]: the state of every tile that was ever requested.
//! - [`transfer`]: requests and messages, the values that cross to and from
//!   the substrate.
//! - [`apc`]: the one operation by which work is submitted.
//! - [`request_stage`]: the per-frame driver that ties these together.
//! - [`procedure`], [`pipeline`]: what happens to a request once it runs.
//! - [`delivery`]: what the answer to a request does to the store.
//! - [`frame_loop`]: what the main loop decides.
//!
//! Nothing here waits, sleeps, reads or sends. Fetching, decoding, drawing
//! and the passing of messages are done by the caller; this library says
//! what is to be done and keeps the books.

pub mod apc;
pub mod coords;
pub mod delivery;
pub mod frame_loop;
pub mod layers;
pub mod pipeline;
pub mod procedure;
pub mod request_stage;
pub mod store;
pub mod style;
pub mod transfer;
pub mod view;
