use vstd::prelude::*;

verus! {

/// Settings of one run: the store and the two mailboxes.
pub struct Config<'a> {
    pub database: DatabaseConfig<'a>,
    pub dmarc: IMAPConfig<'a>,
    pub tlsrpt: IMAPConfig<'a>,
}

pub struct DatabaseConfig<'a> {
    pub host: &'a str,
    pub username: &'a str,
    pub password: &'a str,
    pub database: &'a str,
}

pub struct IMAPConfig<'a> {
    pub enabled: bool,
    pub host: &'a str,
    pub port: u16,
    pub tls: bool,
    pub username: &'a str,
    pub password: &'a str,
    pub folder: &'a str,
}

/// The settings written out when no configuration file exists yet.
pub fn default_config() -> (r: Config<'static>)
    ensures
        r.database.host@ == "localhost"@,
        r.database.username@ == "username"@,
        r.database.password@ == "password123"@,
        r.database.database@ == "herald"@,
        r.dmarc.enabled && r.dmarc.tls && r.dmarc.port == 993,
        r.dmarc.host@ == "localhost"@,
        r.dmarc.username@ == "reports@dmarc.some-cool-address.invalid"@,
        r.dmarc.password@ == "password123"@,
        r.dmarc.folder@ == "INBOX"@,
        r.tlsrpt.enabled && r.tlsrpt.tls && r.tlsrpt.port == 993,
        r.tlsrpt.host@ == "localhost"@,
        r.tlsrpt.username@ == "reports@tlsrpt.some-cool-address.invalid"@,
        r.tlsrpt.password@ == "password123"@,
        r.tlsrpt.folder@ == "INBOX"@,
{
    Config {
        database: DatabaseConfig {
            host: "localhost",
            username: "username",
            password: "password123",
            database: "herald",
        },
        dmarc: IMAPConfig {
            enabled: true,
            host: "localhost",
            port: 993,
            tls: true,
            username: "reports@dmarc.some-cool-address.invalid",
            password: "password123",
            folder: "INBOX",
        },
        tlsrpt: IMAPConfig {
            enabled: true,
            host: "localhost",
            port: 993,
            tls: true,
            username: "reports@tlsrpt.some-cool-address.invalid",
            password: "password123",
            folder: "INBOX",
        },
    }
}

} // verus!
