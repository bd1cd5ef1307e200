//! The configuration the application runs under, and the values derived
//! from it: the listen address and the sandbox root.

use vstd::prelude::*;
use vstd::string::*;
use crate::strutil::{chars_to_string, push_char};

verus! {

/// Host, port, and the date format used by the logging subsystem.
pub struct Application {
    pub host: String,
    pub port: u16,
    pub date_format: String,
}

/// The database connection string.
pub struct Database {
    pub url: String,
}

/// How the requested language is taken from a request.
pub enum LocalizationSortMethod {
    Header,
}

/// The default language tag and the language-selection methods, in order.
pub struct Localization {
    pub default: String,
    pub method: Vec<LocalizationSortMethod>,
}

/// Everything the application is configured with.
pub struct Settings {
    pub application: Application,
    pub localization: Localization,
    pub database: Database,
}

/// The character of one decimal digit.
pub open spec fn digit_char(d: nat) -> char {
    if d == 0 {
        '0'
    } else if d == 1 {
        '1'
    } else if d == 2 {
        '2'
    } else if d == 3 {
        '3'
    } else if d == 4 {
        '4'
    } else if d == 5 {
        '5'
    } else if d == 6 {
        '6'
    } else if d == 7 {
        '7'
    } else if d == 8 {
        '8'
    } else {
        '9'
    }
}

/// The decimal digits of `n`, most significant first.
pub open spec fn dec_str(n: nat) -> Seq<char>
    decreases n,
{
    if n < 10 {
        seq![digit_char(n)]
    } else {
        dec_str(n / 10).push(digit_char(n % 10))
    }
}

fn digit(d: u16) -> (c: char)
    requires
        d < 10,
    ensures
        c == digit_char(d as nat),
{
    match d {
        0 => '0',
        1 => '1',
        2 => '2',
        3 => '3',
        4 => '4',
        5 => '5',
        6 => '6',
        7 => '7',
        8 => '8',
        _ => '9',
    }
}

fn u16_chars(n: u16) -> (v: Vec<char>)
    ensures
        v@ == dec_str(n as nat),
    decreases n,
{
    if n < 10 {
        let mut v: Vec<char> = Vec::new();
        v.push(digit(n));
        proof {
            assert(v@ =~= seq![digit_char(n as nat)]);
        }
        v
    } else {
        let mut v = u16_chars(n / 10);
        v.push(digit(n % 10));
        v
    }
}

/// The host and port an application instance listens on.
pub struct App {
    pub host: String,
    pub port: u16,
}

impl App {
    /// Captures the configured host and port.
    pub fn new(configuration: Settings) -> (r: App)
        ensures
            r.host@ == configuration.application.host@,
            r.port == configuration.application.port,
    {
        let host = configuration.application.host;
        let port = configuration.application.port;
        App { host, port }
    }

    /// The `host:port` string the listener binds to.
    pub fn address(&self) -> (r: String)
        ensures
            r@ == self.host@ + seq![':'] + dec_str(self.port as nat),
    {
        let mut out = self.host.clone();
        push_char(&mut out, ':');
        let d = u16_chars(self.port);
        let ds = chars_to_string(&d);
        out.append(ds.as_str());
        proof {
            assert(out@ =~= self.host@ + seq![':'] + dec_str(self.port as nat));
        }
        out
    }
}

/// The sandbox root actually used: the configured value when one is set,
/// the current directory (`.`) otherwise.
pub fn sandbox_root_or_default(configured: Option<String>) -> (r: String)
    ensures
        r@ == match configured {
            Some(s) => s@,
            None => "."@,
        },
{
    match configured {
        Some(s) => s,
        None => ".".to_owned(),
    }
}

} // verus!
