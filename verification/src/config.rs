//! Process configuration and the admin gate.
//!
//! The configuration is plain data, loaded by the surrounding process; the
//! admin gate is a single shared-secret comparison.

use vstd::prelude::*;

verus! {

/// Everything the process needs at startup.
pub struct Config {
    pub db_url: String,
    pub frontend_origin: String,
    pub admin_token: String,
    pub sendgrid_api_key: String,
    pub email_from: String,
    pub email_name: String,
}

/// The fixed configuration that the test suite runs under: an in-memory
/// database and the sentinel mail key under which nothing is dispatched.
pub fn get_test_config() -> (c: Config)
    ensures
        c.db_url@ == "sqlite://:memory:"@,
        c.frontend_origin@ == "http://localhost:1337"@,
        c.admin_token@ == "MAGIC"@,
        c.sendgrid_api_key@ == "TEST"@,
        c.email_from@ == "test@test.com"@,
        c.email_name@ == "test test"@,
{
    Config {
        db_url: "sqlite://:memory:".to_owned(),
        frontend_origin: "http://localhost:1337".to_owned(),
        admin_token: "MAGIC".to_owned(),
        sendgrid_api_key: "TEST".to_owned(),
        email_from: "test@test.com".to_owned(),
        email_name: "test test".to_owned(),
    }
}

/// The admin gate: a presented bearer token authorizes exactly when it
/// equals the configured secret.
pub fn admin_authorized(presented: &String, admin_token: &String) -> (ok: bool)
    ensures
        ok == (presented@ == admin_token@),
{
    *presented == *admin_token
}

} // verus!
