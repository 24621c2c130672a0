//! User configuration and where it lives.
//!
//! The home directory is read by the caller and handed in; the rest is path
//! arithmetic with the meaning of `PathBuf::join` for a relative suffix.
use vstd::prelude::*;
use crate::text::{copy_opt_string, copy_string, opt_view, push_str};

verus! {

/// `base.join(rel)` for a relative `rel`: a `/` goes between them unless
/// `base` is empty or already ends in one.
pub open spec fn path_join(base: Seq<char>, rel: Seq<char>) -> Seq<char> {
    if base.len() == 0 {
        rel
    } else if base.last() == '/' {
        base + rel
    } else {
        base + "/"@ + rel
    }
}

pub fn join_path(base: &str, rel: &str) -> (r: String)
    ensures
        r@ == path_join(base@, rel@),
{
    let mut v: Vec<char> = Vec::new();
    push_str(&mut v, base);
    let n = v.len();
    if n > 0 && v[n - 1] != '/' {
        push_str(&mut v, "/");
    }
    push_str(&mut v, rel);
    proof {
        if base@.len() == 0 {
            assert(v@ =~= rel@);
        } else if base@.last() == '/' {
            assert(v@ =~= base@ + rel@);
        } else {
            assert(v@ =~= base@ + "/"@ + rel@);
        }
    }
    crate::text::string_of(&v)
}

pub struct Config {
    pub adb_path: String,
    pub scrcpy_path: String,
    pub default_device: Option<String>,
}

/// The adb program looked up on the search path.
pub fn default_adb_path() -> (r: String)
    ensures
        r@ == "adb"@,
{
    String::from_str("adb")
}

/// The scrcpy program looked up on the search path.
pub fn default_scrcpy_path() -> (r: String)
    ensures
        r@ == "scrcpy"@,
{
    String::from_str("scrcpy")
}

impl Default for Config {
    /// `adb` and `scrcpy` found on the search path, no default device.
    fn default() -> (r: Self)
        ensures
            r.adb_path@ == "adb"@,
            r.scrcpy_path@ == "scrcpy"@,
            r.default_device is None,
    {
        Config { adb_path: default_adb_path(), scrcpy_path: default_scrcpy_path(), default_device: None }
    }
}

/// The home directory, or `/tmp` where there is none.
pub open spec fn home_or_tmp(home: Option<Seq<char>>) -> Seq<char> {
    match home {
        Some(h) => h,
        None => "/tmp"@,
    }
}

/// `~/.config/ddb`
pub open spec fn config_dir(home: Option<Seq<char>>) -> Seq<char> {
    path_join(home_or_tmp(home), ".config/ddb"@)
}

impl Config {
    /// A copy of the configuration.
    pub fn copy(&self) -> (r: Config)
        ensures
            r.adb_path@ == self.adb_path@,
            r.scrcpy_path@ == self.scrcpy_path@,
            opt_view(r.default_device) == opt_view(self.default_device),
    {
        Config {
            adb_path: copy_string(&self.adb_path),
            scrcpy_path: copy_string(&self.scrcpy_path),
            default_device: copy_opt_string(&self.default_device),
        }
    }

    /// The configuration directory under the home directory `home`.
    pub fn dir(home: Option<&str>) -> (r: String)
        ensures
            r@ == config_dir(crate::text::opt_str_view(home)),
    {
        let h: &str = match home {
            Some(h) => h,
            None => "/tmp",
        };
        join_path(h, ".config/ddb")
    }

    /// `config.toml` in the configuration directory.
    pub fn path(home: Option<&str>) -> (r: String)
        ensures
            r@ == path_join(config_dir(crate::text::opt_str_view(home)), "config.toml"@),
    {
        let d = Self::dir(home);
        join_path(d.as_str(), "config.toml")
    }

    /// `config set key value`: `adb_path` and `scrcpy_path` take the value;
    /// `default_device` takes it, or is cleared by `none` or an empty
    /// value; any other key is refused and nothing changes.
    pub fn set(&mut self, key: &str, value: String) -> (r: Result<(), String>)
        ensures
            key@ == "adb_path"@ ==> r is Ok && final(self).adb_path@ == value@ && final(self).scrcpy_path
                == old(self).scrcpy_path && final(self).default_device == old(self).default_device,
            key@ == "scrcpy_path"@ ==> r is Ok && final(self).scrcpy_path@ == value@ && final(self).adb_path
                == old(self).adb_path && final(self).default_device == old(self).default_device,
            key@ == "default_device"@ ==> r is Ok && final(self).adb_path == old(self).adb_path
                && final(self).scrcpy_path == old(self).scrcpy_path && (if value@ == "none"@
                || value@.len() == 0 {
                final(self).default_device is None
            } else {
                opt_view(final(self).default_device) == Some(value@)
            }),
            !(key@ == "adb_path"@ || key@ == "scrcpy_path"@ || key@ == "default_device"@) ==> (r matches Err(e)
                && e@ == "unknown key '"@ + key@ + "'"@ && *final(self) == *old(self)),
    {
        proof {
            reveal_strlit("adb_path");
            reveal_strlit("scrcpy_path");
            reveal_strlit("default_device");
            reveal_strlit("none");
            assert("adb_path"@.len() == 8);
            assert("scrcpy_path"@.len() == 11);
            assert("default_device"@.len() == 14);
        }
        if crate::text::str_eq(key, "adb_path") {
            self.adb_path = value;
            Ok(())
        } else if crate::text::str_eq(key, "scrcpy_path") {
            self.scrcpy_path = value;
            Ok(())
        } else if crate::text::str_eq(key, "default_device") {
            if crate::text::str_eq(value.as_str(), "none") || value.as_str().is_empty() {
                self.default_device = None;
            } else {
                self.default_device = Some(value);
            }
            Ok(())
        } else {
            let mut v: Vec<char> = Vec::new();
            push_str(&mut v, "unknown key '");
            push_str(&mut v, key);
            push_str(&mut v, "'");
            Err(crate::text::string_of(&v))
        }
    }
}

} // verus!
