//! Focus-session enforcement: block-rule matching, enforcement planning and
//! the session monitor's control state, with the records it reads.

pub mod enforce;
pub mod icon;
pub mod kill;
pub mod listing;
pub mod matcher;
pub mod monitor;
pub mod records;
pub mod text;

pub use records::{
    AppInfo, BlockRule, Favorite, InsertBlockRule, InsertFavorite, InsertSession,
    ProcessDescriptor, Session, Setting, UpdateSession,
};
