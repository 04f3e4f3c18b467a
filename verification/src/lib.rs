//! What a launcher for a dedicated server does: keep the server and its addons up to
//! date, launch it, and publish it to players.

pub mod archive;
pub mod bds;
pub mod discovery;
pub mod disk;
pub mod failure;
pub mod frame;
pub mod handshake;
pub mod install;
pub mod launch;
pub mod launcher;
pub mod network;
pub mod packs;
pub mod properties;
pub mod publish;
pub mod relay;
pub mod replace;
pub mod text;
pub mod update;
pub mod updater;
