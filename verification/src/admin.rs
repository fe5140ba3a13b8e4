//! The dashboard's bot panel and the user directories.

use vstd::prelude::*;

verus! {

/// `GET /api/bot/logs?limit=N`.
#[derive(Debug)]
pub struct LogQuery {
    pub limit: Option<i64>,
}

/// A command and how often it was used.
#[derive(Debug)]
pub struct CommandCount {
    pub command: String,
    pub count: i64,
}

/// `POST /api/users/{discord_id}/role` and `POST /api/telegram/users/{id}/role`.
#[derive(Debug)]
pub struct RoleBody {
    pub role: String,
}

} // verus!
