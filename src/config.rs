//! Settings read once at startup.
use vstd::prelude::*;

verus! {

/// The helper program that installs, updates and removes packages.
pub struct Config {
    pub aur_helper: String,
}

/// The helper used when none is configured.
pub fn default_aur_helper() -> (r: String)
    ensures
        r@ == "yay"@,
{
    String::from_str("yay")
}

impl Default for Config {
    fn default() -> (r: Self)
        ensures
            r.aur_helper@ == "yay"@,
    {
        Config { aur_helper: default_aur_helper() }
    }
}

impl Clone for Config {
    fn clone(&self) -> (r: Self)
        ensures
            r == *self,
    {
        Config { aur_helper: self.aur_helper.clone() }
    }
}


/// `part` appended to the directory `base` as a path component.
pub open spec fn joined_path(base: Seq<char>, part: Seq<char>) -> Seq<char> {
    if base.len() == 0 || base.last() == '/' {
        base + part
    } else {
        base + "/"@ + part
    }
}

/// Appends the path component `part` to the directory `base`.
pub fn join_path(base: &String, part: &str) -> (r: String)
    ensures
        r@ == joined_path(base@, part@),
{
    let cs = crate::text::chars_of(base.as_str());
    let mut r = base.clone();
    if cs.len() > 0 && cs[cs.len() - 1] != '/' {
        r.append("/");
    }
    r.append(part);
    r
}

/// The application's configuration directory under the platform's
/// configuration directory `base` (the current directory where there is
/// none).
pub open spec fn config_dir_under(base: Option<String>) -> Seq<char> {
    match base {
        Some(b) => joined_path(b@, "upkeep"@),
        None => joined_path("."@, "upkeep"@),
    }
}

/// Relies on `dirs::config_dir`: the platform's configuration directory, where
/// it has one; what it is depends on the environment.
#[verifier::external_body]
fn platform_config_dir() -> (r: Option<String>) {
    dirs::config_dir().map(|p| p.to_string_lossy().into_owned())
}

/// The application's configuration directory under `base`.
pub fn config_dir_from(base: Option<String>) -> (r: String)
    ensures
        r@ == config_dir_under(base),
{
    let b = match base {
        Some(b) => b,
        None => String::from_str("."),
    };
    join_path(&b, "upkeep")
}

/// The application's configuration directory.
pub fn config_dir() -> (r: String)
    ensures
        exists|base: Option<String>| r@ == config_dir_under(base),
{
    let base = platform_config_dir();
    config_dir_from(base)
}

/// The settings file in the configuration directory.
pub fn config_path() -> (r: String)
    ensures
        exists|base: Option<String>| r@ == joined_path(config_dir_under(base), "config.toml"@),
{
    let base = platform_config_dir();
    let d = config_dir_from(base);
    join_path(&d, "config.toml")
}

/// The rebuild checks file in the configuration directory.
pub fn checks_path() -> (r: String)
    ensures
        exists|base: Option<String>| r@ == joined_path(config_dir_under(base), "checks.toml"@),
{
    let base = platform_config_dir();
    let d = config_dir_from(base);
    join_path(&d, "checks.toml")
}

} // verus!
