//! A mail thread as a native mail index reports it, held under an ownership
//! marker that ties it to the object it was taken from.

pub mod marker;
pub mod messages;
pub mod record;
pub mod tags;
pub mod text;
pub mod thread;

pub use marker::{Hold, Marker};
pub use messages::{Messages, MessagesOwner};
pub use record::{MessageEntry, ThreadRecord};
pub use tags::{Tags, TagsOwner};
pub use thread::{Thread, ThreadExt, ThreadOwner, ThreadRef};
