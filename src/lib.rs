//! Native side of Android custom views: text-index translation, an editable
//! text model with the IME protocol on top of it, multi-tap classification,
//! the peer registry with its dispatch rules, and the queue of deferred
//! platform actions.
pub mod text_index;
pub mod text;
pub mod editor;
pub mod callback_ctx;
pub mod input_connection;
pub mod tap;
pub mod registry;
pub mod events;
