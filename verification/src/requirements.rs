//! Whether the Codex CLI is installed, and how to install it.
use crate::profile_store::{extension_of, path_join};
use crate::relay::{closed_pieces, open_piece, split_pieces};
use crate::text::{concat, concat3, owned};
use crate::updates::{file_name, path_file_name, InstallSource};
use vstd::prelude::*;

verus! {

/// The operating system the program was built for.
#[derive(Debug, Clone, Copy, PartialEq, Eq, Structural)]
pub enum Platform {
    Windows,
    MacOs,
    Other,
}

/// The command that installs the Codex CLI for an install source.
pub open spec fn install_command_text(source: InstallSource, platform: Platform) -> Seq<char> {
    match source {
        InstallSource::Npm => "npm install -g @openai/codex"@,
        InstallSource::Bun => "bun install -g @openai/codex"@,
        InstallSource::Brew => "brew install --cask codex"@,
        InstallSource::Unknown => match platform {
            Platform::Windows => "winget install OpenAI.Codex"@,
            Platform::MacOs => "brew install --cask codex or npm install -g @openai/codex"@,
            Platform::Other => "npm install -g @openai/codex"@,
        },
    }
}

/// The command that installs the Codex CLI for an install source.
pub fn install_command(source: InstallSource, platform: Platform) -> (res: String)
    ensures
        res@ == install_command_text(source, platform),
{
    match source {
        InstallSource::Npm => owned("npm install -g @openai/codex"),
        InstallSource::Bun => owned("bun install -g @openai/codex"),
        InstallSource::Brew => owned("brew install --cask codex"),
        InstallSource::Unknown => match platform {
            Platform::Windows => owned("winget install OpenAI.Codex"),
            Platform::MacOs => owned("brew install --cask codex or npm install -g @openai/codex"),
            Platform::Other => owned("npm install -g @openai/codex"),
        },
    }
}

/// The message where the Codex CLI is missing.
pub open spec fn missing_cli_message(source: InstallSource, platform: Platform) -> Seq<char> {
    "Error: Codex CLI not found. Install it with "@ + crate::ui::cmd_text(
        install_command_text(source, platform),
    ) + "."@
}

/// Checks that the Codex CLI is installed: always so in a debug build, else
/// where the `codex` command was found; otherwise an error that says how to
/// install it.
pub fn ensure_codex_cli(source: InstallSource, platform: Platform, debug_build: bool, codex_found: bool) -> (res:
    Result<(), String>)
    ensures
        debug_build || codex_found ==> res is Ok,
        !debug_build && !codex_found ==> (res matches Err(e) && e@ == missing_cli_message(
            source,
            platform,
        )),
{
    if debug_build || codex_found {
        return Ok(());
    }
    let cmd = install_command(source, platform);
    let quoted = concat3("`", cmd.as_str(), "`");
    proof {
        reveal_strlit("`");
        assert(quoted@ =~= crate::ui::cmd_text(cmd@));
    }
    Err(concat3("Error: Codex CLI not found. Install it with ", quoted.as_str(), "."))
}

/// The file names a command may have: on Windows, the command itself where
/// it has an extension, else the command with each non-empty extension of
/// `PATHEXT` (`.EXE;.CMD;.BAT;.COM` where it is not set); elsewhere the
/// command itself.
pub open spec fn candidates_of(command: Seq<char>, platform: Platform, pathext: Option<Seq<char>>) -> Seq<
    Seq<char>,
> {
    if platform == Platform::Windows {
        if has_extension(command) {
            seq![command]
        } else {
            let exts = match pathext {
                Some(p) => p,
                None => ".EXE;.CMD;.BAT;.COM"@,
            };
            with_extensions(command, split_pieces(exts, ';'))
        }
    } else {
        seq![command]
    }
}

/// Whether a command's file name has an extension.
pub open spec fn has_extension(command: Seq<char>) -> bool {
    match path_file_name(command) {
        Some(n) => extension_of(n) is Some,
        None => false,
    }
}

/// The command with each non-empty extension, in order.
pub open spec fn with_extensions(command: Seq<char>, exts: Seq<Seq<char>>) -> Seq<Seq<char>>
    decreases exts.len(),
{
    if exts.len() == 0 {
        Seq::empty()
    } else {
        let prev = with_extensions(command, exts.drop_last());
        if exts.last().len() > 0 {
            prev.push(command + exts.last())
        } else {
            prev
        }
    }
}

/// Texts of strings.
pub open spec fn texts(v: Seq<String>) -> Seq<Seq<char>> {
    Seq::new(v.len(), |i: int| v[i]@)
}

/// The pieces of a text between a separator.
pub fn split_text(s: &str, sep: char) -> (res: Vec<String>)
    ensures
        texts(res@) == split_pieces(s@, sep),
{
    let v = crate::text::chars_of(s);
    let mut pieces: Vec<String> = Vec::new();
    let mut cur: Vec<char> = Vec::new();
    let mut i: usize = 0;
    assert(texts(pieces@) =~= closed_pieces(v@.take(0), sep));
    assert(cur@ =~= open_piece(v@.take(0), sep));
    while i < v.len()
        invariant
            i <= v.len(),
            v@ == s@,
            texts(pieces@) == closed_pieces(v@.take(i as int), sep),
            cur@ == open_piece(v@.take(i as int), sep),
        decreases v.len() - i,
    {
        assert(v@.take(i + 1).drop_last() =~= v@.take(i as int));
        if v[i] == sep {
            let ghost before = texts(pieces@);
            pieces.push(crate::text::string_of(&cur));
            assert(texts(pieces@) =~= before.push(cur@));
            cur = Vec::new();
            assert(cur@ =~= open_piece(v@.take(i + 1), sep));
        } else {
            cur.push(v[i]);
        }
        i = i + 1;
    }
    assert(v@.take(v.len() as int) =~= v@);
    let ghost before = texts(pieces@);
    pieces.push(crate::text::string_of(&cur));
    assert(texts(pieces@) =~= before.push(cur@));
    pieces
}

/// The file names the Codex CLI may have.
pub fn command_candidates(command: &str, platform: Platform, pathext: Option<&str>) -> (res: Vec<
    String,
>)
    ensures
        texts(res@) == candidates_of(
            command@,
            platform,
            match pathext {
                Some(p) => Some(p@),
                None => None,
            },
        ),
{
    if platform != Platform::Windows {
        let res = vec![owned(command)];
        assert(texts(res@) =~= seq![command@]);
        return res;
    }
    let extended = match file_name(command) {
        Some(n) => {
            let nv = crate::text::chars_of(n.as_str());
            crate::profile_store::last_dot_exec(&nv) > 1
        },
        None => false,
    };
    if extended {
        let res = vec![owned(command)];
        assert(texts(res@) =~= seq![command@]);
        return res;
    }
    let exts = match pathext {
        Some(p) => split_text(p, ';'),
        None => split_text(".EXE;.CMD;.BAT;.COM", ';'),
    };
    let ghost ev = texts(exts@);
    let mut out: Vec<String> = Vec::new();
    let mut i: usize = 0;
    assert(texts(out@) =~= with_extensions(command@, ev.take(0)));
    while i < exts.len()
        invariant
            i <= exts.len(),
            ev == texts(exts@),
            texts(out@) == with_extensions(command@, ev.take(i as int)),
        decreases exts.len() - i,
    {
        assert(ev.take(i + 1).drop_last() =~= ev.take(i as int));
        if !exts[i].as_str().is_empty() {
            let ghost before = texts(out@);
            out.push(concat(command, exts[i].as_str()));
            assert(texts(out@) =~= before.push(command@ + ev[i as int]));
        }
        i = i + 1;
    }
    assert(ev.take(exts.len() as int) =~= ev);
    out
}

/// The paths where a command may be found: each directory of the search
/// path joined with each candidate name, directory by directory.
pub open spec fn command_paths_of(dirs: Seq<Seq<char>>, candidates: Seq<Seq<char>>) -> Seq<Seq<char>>
    decreases dirs.len(),
{
    if dirs.len() == 0 {
        Seq::empty()
    } else {
        command_paths_of(dirs.drop_last(), candidates) + candidates.map_values(
            |c: Seq<char>| path_join(dirs.last(), c),
        )
    }
}

/// The paths where a command may be found, in the order they are tried.
pub fn command_paths(dirs: &[String], candidates: &[String]) -> (res: Vec<String>)
    ensures
        texts(res@) == command_paths_of(texts(dirs@), texts(candidates@)),
{
    let ghost dv = texts(dirs@);
    let ghost cv = texts(candidates@);
    let mut out: Vec<String> = Vec::new();
    let mut i: usize = 0;
    assert(dv.take(0) =~= Seq::<Seq<char>>::empty());
    while i < dirs.len()
        invariant
            i <= dirs.len(),
            dv == texts(dirs@),
            cv == texts(candidates@),
            texts(out@) == command_paths_of(dv.take(i as int), cv),
        decreases dirs.len() - i,
    {
        let ghost start = texts(out@);
        let mut j: usize = 0;
        while j < candidates.len()
            invariant
                i < dirs.len(),
                j <= candidates.len(),
                dv == texts(dirs@),
                cv == texts(candidates@),
                texts(out@) == start + cv.take(j as int).map_values(
                    |c: Seq<char>| path_join(dv[i as int], c),
                ),
            decreases candidates.len() - j,
        {
            let ghost before = texts(out@);
            out.push(crate::common::join_path(dirs[i].as_str(), candidates[j].as_str()));
            proof {
                assert(cv.take(j + 1).map_values(|c: Seq<char>| path_join(dv[i as int], c))
                    =~= cv.take(j as int).map_values(|c: Seq<char>| path_join(dv[i as int], c)).push(
                    path_join(dv[i as int], cv[j as int]),
                ));
                assert(texts(out@) =~= before.push(path_join(dv[i as int], cv[j as int])));
            }
            j = j + 1;
        }
        proof {
            assert(cv.take(candidates.len() as int) =~= cv);
            assert(dv.take(i + 1).drop_last() =~= dv.take(i as int));
            assert(dv.take(i + 1).last() == dv[i as int]);
        }
        i = i + 1;
    }
    assert(dv.take(dirs.len() as int) =~= dv);
    out
}

} // verus!
