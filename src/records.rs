//! The records that the data store keeps and the monitor reads.

use vstd::prelude::*;

verus! {

/// An application the user pinned for quick access.
#[derive(Clone, Debug, PartialEq)]
pub struct Favorite {
    pub id: String,
    pub app_id: String,
    pub display_name: String,
    pub pinned_order: Option<i32>,
    pub icon_hint: Option<String>,
}

/// A favorite as submitted for creation, before it has an identifier.
#[derive(Clone, Debug, PartialEq)]
pub struct InsertFavorite {
    pub app_id: String,
    pub display_name: String,
    pub pinned_order: Option<i32>,
    pub icon_hint: Option<String>,
}

/// One enforcement policy entry: which application, how to recognise it
/// (`match_kind`: "exe", "path" or anything else for a lenient name test)
/// and what to do about it (`mode`: "hard" or "soft").
#[derive(Clone, Debug, PartialEq)]
pub struct BlockRule {
    pub id: String,
    pub app_id: String,
    pub match_kind: String,
    pub mode: String,
}

/// A block rule as submitted for creation, before it has an identifier.
#[derive(Clone, Debug, PartialEq)]
pub struct InsertBlockRule {
    pub app_id: String,
    pub match_kind: String,
    pub mode: String,
}

/// One focus interval. `status` is one of "pending", "running", "completed"
/// or "cancelled"; only the store changes it.
#[derive(Clone, Debug, PartialEq)]
pub struct Session {
    pub id: String,
    pub start_utc: i64,
    pub end_utc: i64,
    pub status: String,
    pub duration_secs: i32,
    pub remaining_secs: Option<i32>,
}

/// A session as submitted for creation, before it has an identifier.
#[derive(Clone, Debug, PartialEq)]
pub struct InsertSession {
    pub start_utc: i64,
    pub end_utc: i64,
    pub status: String,
    pub duration_secs: i32,
    pub remaining_secs: Option<i32>,
}

/// A partial change to a session: each field present is written.
#[derive(Clone, Debug, PartialEq)]
pub struct UpdateSession {
    pub start_utc: Option<i64>,
    pub end_utc: Option<i64>,
    pub status: Option<String>,
    pub duration_secs: Option<i32>,
    pub remaining_secs: Option<i32>,
}

/// One key/value preference.
#[derive(Clone, Debug, PartialEq)]
pub struct Setting {
    pub key: String,
    pub value: String,
}

/// One live process seen in a single snapshot: its name, its executable's
/// path where the system reports one, and its identifier.
#[derive(Clone, Debug, PartialEq)]
pub struct ProcessDescriptor {
    pub name: String,
    pub path: Option<String>,
    pub pid: u32,
}

/// An application or process as listed to the user.
#[derive(Clone, Debug, PartialEq)]
pub struct AppInfo {
    pub name: String,
    pub path: Option<String>,
    pub icon: Option<String>,
}

impl InsertFavorite {
    /// The stored favorite: this submission under the identifier `id`.
    pub fn into_favorite(self, id: String) -> (r: Favorite)
        ensures
            r.id == id,
            r.app_id == self.app_id,
            r.display_name == self.display_name,
            r.pinned_order == self.pinned_order,
            r.icon_hint == self.icon_hint,
    {
        Favorite {
            id,
            app_id: self.app_id,
            display_name: self.display_name,
            pinned_order: self.pinned_order,
            icon_hint: self.icon_hint,
        }
    }
}

impl InsertBlockRule {
    /// The stored rule: this submission under the identifier `id`.
    pub fn into_block_rule(self, id: String) -> (r: BlockRule)
        ensures
            r.id == id,
            r.app_id == self.app_id,
            r.match_kind == self.match_kind,
            r.mode == self.mode,
    {
        BlockRule { id, app_id: self.app_id, match_kind: self.match_kind, mode: self.mode }
    }
}

impl InsertSession {
    /// The stored session: this submission under the identifier `id`.
    pub fn into_session(self, id: String) -> (r: Session)
        ensures
            r.id == id,
            r.start_utc == self.start_utc,
            r.end_utc == self.end_utc,
            r.status == self.status,
            r.duration_secs == self.duration_secs,
            r.remaining_secs == self.remaining_secs,
    {
        Session {
            id,
            start_utc: self.start_utc,
            end_utc: self.end_utc,
            status: self.status,
            duration_secs: self.duration_secs,
            remaining_secs: self.remaining_secs,
        }
    }
}

} // verus!
