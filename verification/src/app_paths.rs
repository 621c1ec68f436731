//! Where the application keeps its files: the store's install root, the
//! default site directory, logs, the settings and site lists, and which
//! saved site directories are stale and get replaced at start-up.
//!
//! The environment (`APPDATA`, `USERPROFILE`, the executable's directory
//! and whether it is writable) is read by the caller and handed in.

use vstd::prelude::*;
use crate::text::{chars_of, string_of, contains, contains_str, replace_char, replace_char_exec};
use crate::paths::{win_join, win_join_exec, home_or_default};
use crate::strangers::unicode_lower;

verus! {

/// `%APPDATA%`, or `<home>\AppData\Roaming` when it is not set.
pub open spec fn appdata_or_default(appdata: Option<Seq<char>>, userprofile: Option<Seq<char>>) -> Seq<char> {
    match appdata {
        Some(a) => a,
        None => win_join(win_join(home_or_default(userprofile), "AppData"@), "Roaming"@),
    }
}

/// The view of an optional text.
pub open spec fn ov(o: Option<&str>) -> Option<Seq<char>> {
    match o {
        Some(s) => Some(s@),
        None => None,
    }
}

fn appdata_chars(appdata: Option<&str>, userprofile: Option<&str>) -> (r: Vec<char>)
    ensures
        r@ == appdata_or_default(ov(appdata), ov(userprofile)),
{
    proof {
        reveal_strlit("C:\\Users\\Default");
        reveal_strlit("AppData");
        reveal_strlit("Roaming");
    }
    match appdata {
        Some(a) => chars_of(a),
        None => {
            let h = match userprofile {
                Some(h) => chars_of(h),
                None => chars_of("C:\\Users\\Default"),
            };
            win_join_exec(&win_join_exec(&h, &chars_of("AppData")), &chars_of("Roaming"))
        },
    }
}

fn join_lit(base: &[char], part: &str) -> (r: Vec<char>)
    ensures
        r@ == win_join(base@, part@),
{
    win_join_exec(base, &chars_of(part))
}

/// The store's install root: the configured one when set and not empty;
/// else `Extensions` beside the executable when that directory is
/// writable; else `RustStudy\Extensions` under the application data.
pub open spec fn spec_packages_root(
    configured: Option<Seq<char>>,
    writable_exe_dir: Option<Seq<char>>,
    appdata: Option<Seq<char>>,
    userprofile: Option<Seq<char>>,
) -> Seq<char> {
    match configured {
        Some(c) if c.len() > 0 => c,
        _ => match writable_exe_dir {
            Some(d) => win_join(d, "Extensions"@),
            None => win_join(win_join(appdata_or_default(appdata, userprofile), "RustStudy"@), "Extensions"@),
        },
    }
}

/// The store's install root (see `spec_packages_root`); `writable_exe_dir`
/// is the executable's directory when it is writable.
pub fn resolve_packages_root(
    configured: Option<&str>,
    writable_exe_dir: Option<&str>,
    appdata: Option<&str>,
    userprofile: Option<&str>,
) -> (r: String)
    ensures
        r@ == spec_packages_root(ov(configured), ov(writable_exe_dir), ov(appdata), ov(userprofile)),
{
    match configured {
        Some(c) => {
            if chars_of(c).len() > 0 {
                return string_of(&chars_of(c));
            }
        },
        None => {},
    }
    match writable_exe_dir {
        Some(d) => string_of(&join_lit(&chars_of(d), "Extensions")),
        None => string_of(&join_lit(&join_lit(&appdata_chars(appdata, userprofile), "RustStudy"), "Extensions")),
    }
}

/// The default site directory: `www` beside the executable when that
/// directory is writable, else `RustStudy\www` under the application data.
pub open spec fn spec_default_www_root(
    writable_exe_dir: Option<Seq<char>>,
    appdata: Option<Seq<char>>,
    userprofile: Option<Seq<char>>,
) -> Seq<char> {
    match writable_exe_dir {
        Some(d) => win_join(d, "www"@),
        None => win_join(win_join(appdata_or_default(appdata, userprofile), "RustStudy"@), "www"@),
    }
}

/// The default site directory (see `spec_default_www_root`).
pub fn resolve_default_www_root(writable_exe_dir: Option<&str>, appdata: Option<&str>, userprofile: Option<&str>) -> (r: String)
    ensures
        r@ == spec_default_www_root(ov(writable_exe_dir), ov(appdata), ov(userprofile)),
{
    match writable_exe_dir {
        Some(d) => string_of(&join_lit(&chars_of(d), "www")),
        None => string_of(&join_lit(&join_lit(&appdata_chars(appdata, userprofile), "RustStudy"), "www")),
    }
}

/// Where the first store prototype installed packages:
/// `RustStudy\Packages` under the application data.
pub fn legacy_packages_root(appdata: Option<&str>, userprofile: Option<&str>) -> (r: String)
    ensures
        r@ == win_join(win_join(appdata_or_default(ov(appdata), ov(userprofile)), "RustStudy"@), "Packages"@),
{
    string_of(&join_lit(&join_lit(&appdata_chars(appdata, userprofile), "RustStudy"), "Packages"))
}

/// The log directory: the configured one when set and not empty, else
/// `logs` beside the executable (or under `.` when that is unknown).
pub open spec fn spec_log_dir(configured: Option<Seq<char>>, exe_dir: Option<Seq<char>>) -> Seq<char> {
    match configured {
        Some(c) if c.len() > 0 => c,
        _ => win_join(match exe_dir { Some(d) => d, None => "."@ }, "logs"@),
    }
}

/// The log directory (see `spec_log_dir`).
pub fn resolve_log_dir(configured: Option<&str>, exe_dir: Option<&str>) -> (r: String)
    ensures
        r@ == spec_log_dir(ov(configured), ov(exe_dir)),
{
    proof {
        reveal_strlit(".");
    }
    match configured {
        Some(c) => {
            if chars_of(c).len() > 0 {
                return string_of(&chars_of(c));
            }
        },
        None => {},
    }
    let base = match exe_dir {
        Some(d) => chars_of(d),
        None => chars_of("."),
    };
    string_of(&join_lit(&base, "logs"))
}

/// A file under `<home>\.ruststudy`.
pub open spec fn under_app_home(userprofile: Option<Seq<char>>, name: Seq<char>) -> Seq<char> {
    win_join(win_join(home_or_default(userprofile), ".ruststudy"@), name)
}

fn app_home_file(userprofile: Option<&str>, name: &str) -> (r: String)
    ensures
        r@ == under_app_home(ov(userprofile), name@),
{
    proof {
        reveal_strlit("C:\\Users\\Default");
    }
    let h = match userprofile {
        Some(h) => chars_of(h),
        None => chars_of("C:\\Users\\Default"),
    };
    string_of(&win_join_exec(&join_lit(&h, ".ruststudy"), &chars_of(name)))
}

/// The saved site list.
pub fn vhosts_json_path(userprofile: Option<&str>) -> (r: String)
    ensures
        r@ == under_app_home(ov(userprofile), "vhosts.json"@),
{
    app_home_file(userprofile, "vhosts.json")
}

/// The settings file.
pub fn config_path(userprofile: Option<&str>) -> (r: String)
    ensures
        r@ == under_app_home(ov(userprofile), "ruststudy.toml"@),
{
    app_home_file(userprofile, "ruststudy.toml")
}

/// The site directory of the first versions.
pub fn legacy_default_www_root(userprofile: Option<&str>) -> (r: String)
    ensures
        r@ == under_app_home(ov(userprofile), "www"@),
{
    app_home_file(userprofile, "www")
}

/// A path inside a Cargo build directory (`\target\debug\` or
/// `\target\release\`, any slash, any case): left by a development run.
pub open spec fn spec_is_cargo_target_path(p: Seq<char>) -> bool {
    let s = unicode_lower(replace_char(p, '/', '\\'));
    contains(s, "\\target\\debug\\"@) || contains(s, "\\target\\release\\"@)
}

/// Whether `p` lies inside a Cargo build directory.
pub fn is_cargo_target_path(p: &str) -> (r: bool)
    ensures
        r == spec_is_cargo_target_path(p@),
{
    let s = string_of(&replace_char_exec(&chars_of(p), '/', '\\'));
    let l = chars_of(crate::strangers::to_lowercase(s.as_str()).as_str());
    contains_str(&l, "\\target\\debug\\") || contains_str(&l, "\\target\\release\\")
}

/// Whether the saved site directory is replaced by the default at start:
/// it is the directory of the first versions, or lies in a build directory.
pub fn www_root_needs_migration(saved: &str, userprofile: Option<&str>) -> (r: bool)
    ensures
        r == (saved@ == under_app_home(ov(userprofile), "www"@) || spec_is_cargo_target_path(saved@)),
{
    let legacy = legacy_default_www_root(userprofile);
    crate::text::eq(&chars_of(saved), &chars_of(legacy.as_str())) || is_cargo_target_path(saved)
}

} // verus!
