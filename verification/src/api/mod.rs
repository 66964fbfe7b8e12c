//! The operations offered to the Flutter side.

pub mod dns;
