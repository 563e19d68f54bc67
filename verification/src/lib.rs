//! Planning and bookkeeping for btrfs snapshot backups.

pub mod backup;
pub mod clock;
pub mod cmd;
pub mod config;
pub mod durability;
pub mod location;
pub mod mounting;
pub mod number;
pub mod order;
pub mod path;
pub mod piping;
pub mod record;
pub mod snapshot;
pub mod state;
pub mod text;
pub mod tokens;
pub mod validation;
pub mod verdict;
