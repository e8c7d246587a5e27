//! A peer-to-peer chat core: an asynchronous messaging engine over a gossip
//! transport, the chat-message envelope and its verified wire codec, and the
//! controller-side conversation model.
//!
//! The engine owns the transport on a dedicated task and talks to the
//! controller over an action/event protocol; messages are addressed by
//! publishing one copy per recipient to the topic named after that
//! recipient's peer identifier.

pub mod chat;
pub mod codec;
pub mod dedup;
pub mod engine;
pub mod hex;
pub mod message;
pub mod transport;

pub use chat::chats::Chats;
pub use chat::contact::Contact;
pub use chat::contacts::Contacts;
pub use chat::Chat;
pub use chat::ChatEditWindowContent;
pub use engine::Action;
pub use engine::ActionResult;
pub use engine::ChannelClosed;
pub use engine::Event;
pub use engine::P2pc;
pub use message::ChatMessage;
