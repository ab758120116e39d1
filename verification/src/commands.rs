//! The commands of the command-line client and the request bodies the
//! server accepts.
use vstd::prelude::*;
use crate::listing::{OutputFormat, SortBy, StatusFilter};
use crate::server::UserRole;

verus! {

/// What to do with devices.
#[derive(Debug)]
pub enum DeviceAction {
    /// List all devices, or the topics of one.
    List {
        device_id: Option<String>,
        format: OutputFormat,
        sort: SortBy,
        status: Option<StatusFilter>,
        watch: bool,
        interval: u64,
        extended: bool,
        config: Option<String>,
        online_threshold: Option<u64>,
        warning_threshold: Option<u64>,
        stale_threshold: Option<u64>,
    },
    /// Delete a device by its identifier.
    Delete { device_id: String },
}

/// What to do with accounts.
#[derive(Debug)]
pub enum AccountAction {
    /// Create an account; with the server's root password it is a root
    /// account.
    Register { username: String, password: String, rootpass: Option<String> },
    /// Log in and keep the session token.
    Login { username: String, password: String },
    /// End the session and drop the token.
    Logout,
    /// Delete another account (root only).
    Delete { username: String },
    /// List the accounts (root only).
    List,
}

/// What to do with the status thresholds.
#[derive(Debug)]
pub enum ConfigAction {
    /// Show the thresholds in force.
    Show,
    /// Change some of the thresholds.
    Change { online_threshold: Option<u64>, warning_threshold: Option<u64>, stale_threshold: Option<u64> },
}

/// A ping reported by a device.
#[derive(Debug)]
pub struct PingRequest {
    pub device_id: String,
    pub topic: String,
    pub metadata: Option<String>,
}

/// New descriptive fields for a device.
#[derive(Debug)]
pub struct UpdateDeviceRequest {
    pub name: Option<String>,
    pub description: Option<String>,
}

/// A request to create an account.
#[derive(Debug)]
pub struct CreateUserRequest {
    pub username: String,
    pub password: String,
    pub role: Option<UserRole>,
}

/// An account about to be stored: its name, password hash and role.
#[derive(Debug)]
pub struct NewUser<'a> {
    pub username: &'a str,
    pub hashed_password: &'a str,
    pub role: &'a str,
}

/// A request refused for want of valid credentials.
#[derive(Debug)]
pub struct Unauthorized;

/// A request to delete one of the caller's devices.
#[derive(Debug)]
pub struct DeleteDevicePayload {
    pub device_id: String,
}

} // verus!
