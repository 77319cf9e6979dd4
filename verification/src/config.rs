//! Settings from the environment, and what they are when they are missing.

#[allow(unused_imports)]
use crate::numerals::parsed_u16;
use crate::numerals::parse_u16;
use vstd::prelude::*;
use vstd::string::*;

verus! {

/// The port when none is set.
pub const DEFAULT_PORT: u16 = 8080;

/// The port to listen on: what `PORT` reads as, where it reads as a port.
pub fn get_port(setting: Option<&str>) -> (r: u16)
    ensures
        r == match setting {
            Some(s) => match parsed_u16(s@) {
                Some(p) => p,
                None => DEFAULT_PORT,
            },
            None => DEFAULT_PORT,
        },
{
    match setting {
        Some(s) => match parse_u16(s) {
            Some(p) => p,
            None => DEFAULT_PORT,
        },
        None => DEFAULT_PORT,
    }
}

/// A setting, or what stands in for it.
pub open spec fn setting_or(setting: Option<String>, default: Seq<char>) -> Seq<char> {
    match setting {
        Some(s) => s@,
        None => default,
    }
}

/// A setting, or what stands in for it.
pub fn or_default(setting: Option<String>, default: &str) -> (r: String)
    ensures
        r@ == setting_or(setting, default@),
{
    match setting {
        Some(s) => s,
        None => default.to_owned(),
    }
}

/// The administrator's name and password.
pub fn get_admin_credentials(username: Option<String>, password: Option<String>) -> (r: (
    String,
    String,
))
    ensures
        r.0@ == setting_or(username, "admin"@),
        r.1@ == setting_or(password, "DL-Admin-2025!"@),
{
    (or_default(username, "admin"), or_default(password, "DL-Admin-2025!"))
}

/// Where the database is kept: where `DATABASE_URL` says; else under `/app`,
/// where that exists; else under `/tmp`.
pub fn database_path(setting: Option<String>, app_exists: bool) -> (r: String)
    ensures
        r@ == setting_or(
            setting,
            if app_exists {
                "/app/diesellynk.db"@
            } else {
                "/tmp/diesellynk.db"@
            },
        ),
{
    if app_exists {
        or_default(setting, "/app/diesellynk.db")
    } else {
        or_default(setting, "/tmp/diesellynk.db")
    }
}

} // verus!
