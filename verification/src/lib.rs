//! Message-handling core of an actor-style process: an in-memory key/value
//! store together with the handlers and the dispatcher that interpret an
//! inbound message's action tag, apply it to the store, and build a
//! well-formed response.

pub mod handlers;
pub mod json;
pub mod laws;
pub mod message;
pub mod store;
pub mod strutil;

pub use handlers::clear_state;
pub use handlers::dispatch;
pub use handlers::get_state;
pub use handlers::handle_clear;
pub use handlers::handle_get;
pub use handlers::handle_info;
pub use handlers::handle_list;
pub use handlers::handle_message;
pub use handlers::handle_remove;
pub use handlers::handle_set;
pub use message::AOMessage;
pub use message::AOResponse;
pub use store::ProcessState;
pub use strutil::str_eq;
pub use strutil::usize_to_string;
