//! Red Strap core logic: version handling, fast-flag editing, Roblox log
//! and deeplink parsing, shortcut and icon encoding, and the settings model.

pub mod text;
pub mod version;
pub mod flagmodel;
pub mod settings;
pub mod fastflags;
pub mod consts;
pub mod roblox;
pub mod error;
pub mod manifest;
pub mod deployment;
pub mod updater;
pub mod state;
pub mod logging;
pub mod encoding;
pub mod shortcut;
pub mod util;
pub mod mods;
pub mod shortcuts;
pub mod launch;
pub mod foreign;
pub mod session;
pub mod rpc;
pub mod cli;
pub mod paths;
pub mod process;
pub mod registry;
pub mod instance;
pub mod gbs;
pub mod imaging;
pub mod pipeline;
pub mod desktop;
pub mod tail;
