//! Clipboard sharing between machines of a local network: the chunked wire
//! format, the message codec, and the discovery and session engine.
pub mod clipboard;
pub mod menu;
pub mod message;
pub mod network;
pub mod session;
pub mod transferable;
pub mod utils;
pub mod wire;

pub use clipboard::{Clipboard, ClipboardData, ClipboardError, StringType};
pub use menu::{ButtonData, TaskMenuError};
pub use message::{compose_message, parse_message, MessageType, PeerData};
pub use network::{NetworkError, PeerAddr};
pub use session::{Action, Session, SessionCommand};
pub use transferable::Transferable;
pub use utils::{extract_plain_str_from_html, Rand};
pub use wire::{EncodeError, HeaderType, ParseErrors};
