//! Where the program keeps its files, and the name it is run under.
use crate::profile_store::path_join;
use crate::text::{owned, trim_seq, trim_str};
use crate::updates::{file_name, path_file_name};
use vstd::prelude::*;

verus! {

/// The files of the program under the Codex home directory.
#[derive(Clone, Debug, PartialEq, Eq)]
pub struct Paths {
    pub codex: String,
    pub auth: String,
    pub profiles: String,
    pub profiles_index: String,
    pub usage: String,
    pub usage_lock: String,
    pub labels: String,
}

/// The name of the package, and of the command where nothing else names it.
pub open spec fn package_name() -> Seq<char> {
    "codex-profiles"@
}

/// The name of the package.
pub fn package_command_name() -> (res: &'static str)
    ensures
        res@ == package_name(),
{
    proof {
        reveal_strlit("codex-profiles");
    }
    "codex-profiles"
}

/// The name the program goes by: the `CODEX_PROFILES_COMMAND` setting
/// where it is not blank (trimmed), else the file name it was started
/// under where there is one, else the package name.
pub open spec fn command_name_of(setting: Option<Seq<char>>, arg0: Option<Seq<char>>) -> Seq<char> {
    match setting {
        Some(v) if trim_seq(v).len() > 0 => trim_seq(v),
        _ => match arg0 {
            Some(a) => match path_file_name(a) {
                Some(n) if n.len() > 0 => n,
                _ => package_name(),
            },
            None => package_name(),
        },
    }
}

/// The name the program goes by, from the `CODEX_PROFILES_COMMAND` setting
/// and the path the program was started under.
pub fn command_name_from(setting: Option<&str>, arg0: Option<&str>) -> (res: String)
    ensures
        res@ == command_name_of(
            match setting {
                Some(v) => Some(v@),
                None => None,
            },
            match arg0 {
                Some(a) => Some(a@),
                None => None,
            },
        ),
{
    if let Some(v) = setting {
        let t = trim_str(v);
        if !t.as_str().is_empty() {
            return t;
        }
    }
    if let Some(a) = arg0 {
        if let Some(n) = file_name(a) {
            if !n.as_str().is_empty() {
                return n;
            }
        }
    }
    owned(package_command_name())
}

/// A setting that is present and not empty.
pub open spec fn present(v: Option<Seq<char>>) -> Option<Seq<char>> {
    match v {
        Some(s) if s.len() > 0 => Some(s),
        _ => None,
    }
}

/// The home directory: `CODEX_PROFILES_HOME` where it is set and not
/// empty, else the one the platform reports, else `HOME`, else
/// `USERPROFILE`, else `HOMEDRIVE` joined with `HOMEPATH` where both are
/// set and the result is not empty.
pub open spec fn home_dir_of(
    profiles_home: Option<Seq<char>>,
    platform_home: Option<Seq<char>>,
    home: Option<Seq<char>>,
    user_profile: Option<Seq<char>>,
    home_drive: Option<Seq<char>>,
    home_path: Option<Seq<char>>,
) -> Option<Seq<char>> {
    if present(profiles_home) is Some {
        profiles_home
    } else if platform_home is Some {
        platform_home
    } else if present(home) is Some {
        home
    } else if present(user_profile) is Some {
        user_profile
    } else {
        match (home_drive, home_path) {
            (Some(d), Some(p)) => {
                let joined = path_join(d, p);
                if joined.len() > 0 {
                    Some(joined)
                } else {
                    None
                }
            },
            _ => None,
        }
    }
}

fn present_exec(v: Option<&str>) -> (res: bool)
    ensures
        res == (present(
            match v {
                Some(s) => Some(s@),
                None => None,
            },
        ) is Some),
{
    match v {
        Some(s) => !s.is_empty(),
        None => false,
    }
}

/// A path joined with one more part, as `PathBuf::push` does on Unix.
pub fn join_path(dir: &str, part: &str) -> (res: String)
    ensures
        res@ == path_join(dir@, part@),
{
    let pv = crate::text::chars_of(part);
    if pv.len() > 0 && pv[0] == '/' {
        return owned(part);
    }
    let dv = crate::text::chars_of(dir);
    if dv.len() == 0 || dv[dv.len() - 1] == '/' {
        return crate::text::concat(dir, part);
    }
    let mut out = owned(dir);
    out.push('/');
    crate::text::push_str(&mut out, part);
    assert(out@ =~= dir@ + seq!['/'] + part@);
    out
}

/// The home directory from the settings that can name it.
pub fn resolve_home_dir(
    profiles_home: Option<&str>,
    platform_home: Option<&str>,
    home: Option<&str>,
    user_profile: Option<&str>,
    home_drive: Option<&str>,
    home_path: Option<&str>,
) -> (res: Option<String>)
    ensures
        crate::auth::opt_seq(res) == home_dir_of(
            match profiles_home {
                Some(s) => Some(s@),
                None => None,
            },
            match platform_home {
                Some(s) => Some(s@),
                None => None,
            },
            match home {
                Some(s) => Some(s@),
                None => None,
            },
            match user_profile {
                Some(s) => Some(s@),
                None => None,
            },
            match home_drive {
                Some(s) => Some(s@),
                None => None,
            },
            match home_path {
                Some(s) => Some(s@),
                None => None,
            },
        ),
{
    if present_exec(profiles_home) {
        return Some(owned(profiles_home.unwrap()));
    }
    if let Some(p) = platform_home {
        return Some(owned(p));
    }
    if present_exec(home) {
        return Some(owned(home.unwrap()));
    }
    if present_exec(user_profile) {
        return Some(owned(user_profile.unwrap()));
    }
    match (home_drive, home_path) {
        (Some(d), Some(p)) => {
            let joined = join_path(d, p);
            if joined.as_str().is_empty() {
                None
            } else {
                Some(joined)
            }
        },
        _ => None,
    }
}

/// Whether paths are those of the program under a home directory:
/// `.codex` in it, `auth.json` in that, and the profiles directory with its
/// usage, lock, labels and index files.
pub open spec fn paths_under(p: Paths, home: Seq<char>) -> bool {
    let codex = path_join(home, ".codex"@);
    let profiles = path_join(codex, "profiles"@);
    &&& p.codex@ == codex
    &&& p.auth@ == path_join(codex, "auth.json"@)
    &&& p.profiles@ == profiles
    &&& p.profiles_index@ == path_join(profiles, "profiles.json"@)
    &&& p.usage@ == path_join(profiles, "usage.tsv"@)
    &&& p.usage_lock@ == path_join(profiles, "usage.lock"@)
    &&& p.labels@ == path_join(profiles, "labels.json"@)
}

/// The program's paths under the home directory; an error where no home
/// directory could be found.
pub fn resolve_paths(home_dir: Option<&str>) -> (res: Result<Paths, String>)
    ensures
        match home_dir {
            Some(h) => res matches Ok(p) && paths_under(p, h@),
            None => res matches Err(e) && e@ == "Error: could not resolve home directory"@,
        },
{
    let home = match home_dir {
        Some(h) => h,
        None => return Err(owned("Error: could not resolve home directory")),
    };
    let codex = join_path(home, ".codex");
    let auth = join_path(codex.as_str(), "auth.json");
    let profiles = join_path(codex.as_str(), "profiles");
    let profiles_index = join_path(profiles.as_str(), "profiles.json");
    let usage = join_path(profiles.as_str(), "usage.tsv");
    let usage_lock = join_path(profiles.as_str(), "usage.lock");
    let labels = join_path(profiles.as_str(), "labels.json");
    Ok(Paths { codex, auth, profiles, profiles_index, usage, usage_lock, labels })
}

} // verus!
