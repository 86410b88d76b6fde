//! Long-term memory and daydreaming for role-playing characters.
//!
//! Every role has a memory of its own, filed under a safe form of its name. It is opened once,
//! settles when it has lain idle, takes in texts and answers questions. A role that idles thinks
//! by itself over what it remembers and keeps what it concludes.
//!
//! The library decides. Databases, language models and the application around them are the
//! caller's: where a decision hangs on them, the library hands out an action, takes an event
//! back, and goes on from there.

pub mod daydream;
pub mod idle;
pub mod insight;
pub mod json;
pub mod memory;
pub mod moment;
pub mod node_memory;
pub mod opening;
pub mod role_name;
pub mod text;
pub mod vector_memory;
