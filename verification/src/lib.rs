//! Verified core of a vision-mixer panel for the Phaneron media server.
pub mod phaneron_ws_message;
pub mod snapshot;
pub mod string_map;
pub mod commands;
pub mod registration;
pub mod assets;
