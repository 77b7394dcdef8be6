//! Chat emotes turned into animated on-screen objects: configuration
//! parsing, the emote cache protocol, frame decoding, motion behaviours and
//! the bounded queue of live objects.

pub mod cache;
pub mod confparse;
pub mod decode;
pub mod easing;
pub mod effects;
pub mod plugin;
