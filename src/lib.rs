//! Link and connection management for a communications plugin that carries
//! whole buffers over direct (TCP) links and indirect (whiteboard relay)
//! links.
pub mod race_common;
pub mod link;
pub mod direct_link;
pub mod whiteboard_link;
pub mod channels;
pub mod plugin;
pub mod text;
pub mod config_loader;
pub mod link_profile_parser;
