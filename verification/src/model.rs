//! What the windows of the organizer tell each other.

pub mod message;
