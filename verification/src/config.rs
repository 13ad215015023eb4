//! Configuration from named settings.
//!
//! The sampling rate is not here: it is a fraction, and only the caller
//! compares it with a random one.
use crate::db;
use crate::text;
use vstd::prelude::*;

verus! {

broadcast use vstd::string::group_string_axioms;

/// The settings as they were found, each of them optional.
#[derive(Clone, Debug)]
pub struct Settings {
    pub backend_primary_url: Option<String>,
    pub backend_shadow_url: Option<String>,
    pub primary_admin_token: Option<String>,
    pub shadow_admin_token: Option<String>,
    pub sqlite_path: Option<String>,
    pub port: Option<String>,
    pub max_write_attempts: Option<String>,
    pub version_poll_interval_secs: Option<String>,
    pub diff_body_max_bytes: Option<String>,
}

/// What the proxy is configured to do.
#[derive(Clone, Debug)]
pub struct Config {
    pub backend_primary_url: String,
    pub backend_shadow_url: String,
    pub primary_admin_token: Option<String>,
    pub shadow_admin_token: Option<String>,
    pub sqlite_path: String,
    pub port: u16,
    pub max_write_attempts: u32,
    pub version_poll_interval_secs: u64,
    pub diff_body_max_bytes: usize,
}

/// A text setting, or what stands for it where it is missing.
pub open spec fn text_or(o: Option<String>, default: Seq<char>) -> Seq<char> {
    match o {
        Some(s) => s@,
        None => default,
    }
}

fn text_setting(o: &Option<String>, default: &str) -> (r: String)
    ensures
        r@ == text_or(*o, default@),
{
    match o {
        Some(s) => s.clone(),
        None => default.to_owned(),
    }
}

/// A numeric setting, or what stands for it where it is missing, is no number
/// or is too large.
pub open spec fn number_or(o: Option<String>, max: int, default: int) -> int {
    match o {
        Some(s) => match text::unsigned_value(s@) {
            Some(n) => if n <= max {
                n
            } else {
                default
            },
            None => default,
        },
        None => default,
    }
}

fn number_setting(o: &Option<String>, max: u64, default: u64) -> (r: u64)
    requires
        default <= max,
    ensures
        r == number_or(*o, max as int, default as int),
        r <= max,
{
    match o {
        Some(s) => match text::parse_unsigned(s.as_str(), max) {
            Some(n) => n,
            None => default,
        },
        None => default,
    }
}

/// Whether a configuration is what the settings ask for. Backend URLs lose the
/// slashes at their end, so that a path can be put behind them.
pub open spec fn configured(c: Config, v: Settings) -> bool {
    &&& c.backend_primary_url@ == text::without_end_slashes(
        text_or(v.backend_primary_url, "https://twitter-formal-rust.fly.dev"@),
    )
    &&& c.backend_shadow_url@ == text::without_end_slashes(
        text_or(v.backend_shadow_url, "https://twitter-formal-go.fly.dev"@),
    )
    &&& db::opt_text(c.primary_admin_token) == db::opt_text(v.primary_admin_token)
    &&& db::opt_text(c.shadow_admin_token) == db::opt_text(v.shadow_admin_token)
    &&& c.sqlite_path@ == text_or(v.sqlite_path, "/data/diffsplitter.db"@)
    &&& c.port == number_or(v.port, u16::MAX as int, 8080)
    &&& c.max_write_attempts == number_or(v.max_write_attempts, u32::MAX as int, 5)
    &&& c.version_poll_interval_secs == number_or(
        v.version_poll_interval_secs,
        u64::MAX as int,
        5,
    )
    &&& c.diff_body_max_bytes == number_or(v.diff_body_max_bytes, usize::MAX as int, 65536)
}

impl Config {
    /// The configuration that settings ask for.
    pub fn from_settings(v: &Settings) -> (r: Config)
        ensures
            configured(r, *v),
    {
        let primary = text_setting(
            &v.backend_primary_url,
            "https://twitter-formal-rust.fly.dev",
        );
        let shadow = text_setting(&v.backend_shadow_url, "https://twitter-formal-go.fly.dev");
        Config {
            backend_primary_url: text::trim_end_slashes(primary.as_str()),
            backend_shadow_url: text::trim_end_slashes(shadow.as_str()),
            primary_admin_token: db::copy_opt(&v.primary_admin_token),
            shadow_admin_token: db::copy_opt(&v.shadow_admin_token),
            sqlite_path: text_setting(&v.sqlite_path, "/data/diffsplitter.db"),
            port: number_setting(&v.port, u16::MAX as u64, 8080) as u16,
            max_write_attempts: number_setting(&v.max_write_attempts, u32::MAX as u64, 5) as u32,
            version_poll_interval_secs: number_setting(
                &v.version_poll_interval_secs,
                u64::MAX,
                5,
            ),
            diff_body_max_bytes: number_setting(
                &v.diff_body_max_bytes,
                usize::MAX as u64,
                65536,
            ) as usize,
        }
    }
}

/// No configured backend URL ends with a slash.
pub proof fn urls_end_without_slash(c: Config, v: Settings)
    requires
        configured(c, v),
    ensures
        c.backend_primary_url@.len() > 0 ==> c.backend_primary_url@.last() != '/',
        c.backend_shadow_url@.len() > 0 ==> c.backend_shadow_url@.last() != '/',
{
    text::no_slash_at_the_end(
        text_or(v.backend_primary_url, "https://twitter-formal-rust.fly.dev"@),
    );
    text::no_slash_at_the_end(
        text_or(v.backend_shadow_url, "https://twitter-formal-go.fly.dev"@),
    );
}

/// A setting that is given counts, and one that is missing, or that is no number
/// of its range, has its default: five attempts, five seconds between two looks,
/// 65536 bytes of a body, port 8080.
pub proof fn settings_have_their_defaults(c: Config, v: Settings)
    requires
        configured(c, v),
    ensures
        ({
            let number = |o: Option<String>, max: int|
                if o is Some && text::unsigned_value(o->0@) is Some && text::unsigned_value(
                    o->0@,
                )->0 <= max {
                    text::unsigned_value(o->0@)
                } else {
                    None::<int>
                };
            let set = |n: Option<int>, default: int|
                match n {
                    Some(i) => i,
                    None => default,
                };
            &&& c.port == set(number(v.port, 65_535), 8080)
            &&& c.max_write_attempts == set(number(v.max_write_attempts, 4_294_967_295), 5)
            &&& c.version_poll_interval_secs == set(
                number(v.version_poll_interval_secs, u64::MAX as int),
                5,
            )
            &&& c.diff_body_max_bytes == set(
                number(v.diff_body_max_bytes, usize::MAX as int),
                65_536,
            )
        }),
{
}

/// Addresses, tokens and the file are taken as given, each of its own backend;
/// only the slashes at the end of an address are left out.
pub proof fn addresses_are_taken_as_given(c: Config, v: Settings)
    requires
        configured(c, v),
    ensures
        ({
            let cut = |given: Seq<char>, taken: Seq<char>|
                taken.is_prefix_of(given) && (taken.len() > 0 ==> taken.last() != '/') && (forall|
                    i: int,
                |
                    taken.len() <= i < given.len() ==> #[trigger] given[i] == '/');
            &&& v.backend_primary_url matches Some(u) ==> cut(u@, c.backend_primary_url@)
            &&& v.backend_shadow_url matches Some(u) ==> cut(u@, c.backend_shadow_url@)
            &&& v.backend_primary_url is None ==> c.backend_primary_url@
                == "https://twitter-formal-rust.fly.dev"@
            &&& v.backend_shadow_url is None ==> c.backend_shadow_url@
                == "https://twitter-formal-go.fly.dev"@
            &&& c.primary_admin_token is Some <==> v.primary_admin_token is Some
            &&& c.shadow_admin_token is Some <==> v.shadow_admin_token is Some
            &&& v.primary_admin_token matches Some(t) ==> c.primary_admin_token->0@ == t@
            &&& v.shadow_admin_token matches Some(t) ==> c.shadow_admin_token->0@ == t@
            &&& v.sqlite_path matches Some(p) ==> c.sqlite_path@ == p@
            &&& v.sqlite_path is None ==> c.sqlite_path@ == "/data/diffsplitter.db"@
        }),
{
    if v.backend_primary_url is Some {
        text::only_slashes_are_taken_off(v.backend_primary_url->0@);
    } else {
        reveal_strlit("https://twitter-formal-rust.fly.dev");
        assert("https://twitter-formal-rust.fly.dev"@.last() == 'v');
    }
    if v.backend_shadow_url is Some {
        text::only_slashes_are_taken_off(v.backend_shadow_url->0@);
    } else {
        reveal_strlit("https://twitter-formal-go.fly.dev");
        assert("https://twitter-formal-go.fly.dev"@.last() == 'v');
    }
}

} // verus!
