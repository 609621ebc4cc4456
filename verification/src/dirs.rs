//! Where per-user files live, after the XDG base-directory variables: the
//! variable's directory when it is set, otherwise a directory under home.

use crate::cache::joined_path;
use crate::text::{chars_of, push_str, string_from};
use crate::track::opt_chars;
use vstd::prelude::*;

verus! {

/// A base directory: `xdg` when it is set, else `fallback` under `home`;
/// nothing when neither is set.
pub open spec fn base_dir_of(
    xdg: Option<Seq<char>>,
    home: Option<Seq<char>>,
    fallback: Seq<char>,
) -> Option<Seq<char>> {
    match xdg {
        Some(dir) => Some(dir),
        None => match home {
            Some(h) => Some(joined_path(h, fallback)),
            None => None,
        },
    }
}

/// `name` inside the directory `root`.
pub fn join_path(root: &str, name: &str) -> (p: String)
    ensures
        p@ == joined_path(root@, name@),
{
    let mut out = chars_of(root);
    let n = out.len();
    if n > 0 && out[n - 1] != '/' {
        out.push('/');
    }
    push_str(&mut out, name);
    proof {
        if n == 0 {
            assert(out@ =~= name@);
        }
    }
    string_from(out.as_slice())
}

fn base_dir(xdg: Option<String>, home: Option<String>, fallback: &str) -> (r: Option<String>)
    ensures
        opt_chars(r) == base_dir_of(opt_chars(xdg), opt_chars(home), fallback@),
{
    match xdg {
        Some(dir) => Some(dir),
        None => match home {
            Some(h) => Some(join_path(h.as_str(), fallback)),
            None => None,
        },
    }
}

/// The directory of the analysis cache: `phosyncra/analysis` under
/// `$XDG_CACHE_HOME`, or under `~/.cache` when that is unset; nothing when
/// neither it nor the home directory is known.
pub fn analysis_root(xdg_cache_home: Option<String>, home: Option<String>) -> (r: Option<String>)
    ensures
        opt_chars(r) == match base_dir_of(opt_chars(xdg_cache_home), opt_chars(home), ".cache"@) {
            Some(b) => Some(joined_path(joined_path(b, "phosyncra"@), "analysis"@)),
            None => None::<Seq<char>>,
        },
{
    match base_dir(xdg_cache_home, home, ".cache") {
        Some(b) => {
            let app = join_path(b.as_str(), "phosyncra");
            Some(join_path(app.as_str(), "analysis"))
        },
        None => None,
    }
}

/// The file of the stored Spotify tokens: `phosyncra/spotify-token.json`
/// under `$XDG_STATE_HOME`, or under `~/.local/state` when that is unset;
/// nothing when neither it nor the home directory is known.
pub fn token_file(xdg_state_home: Option<String>, home: Option<String>) -> (r: Option<String>)
    ensures
        opt_chars(r) == match base_dir_of(
            opt_chars(xdg_state_home),
            opt_chars(home),
            ".local/state"@,
        ) {
            Some(b) => Some(joined_path(joined_path(b, "phosyncra"@), "spotify-token.json"@)),
            None => None::<Seq<char>>,
        },
{
    match base_dir(xdg_state_home, home, ".local/state") {
        Some(b) => {
            let app = join_path(b.as_str(), "phosyncra");
            Some(join_path(app.as_str(), "spotify-token.json"))
        },
        None => None,
    }
}

/// The state directory of `chip-tool`: `phosyncra/matter/chip-tool` under
/// `$XDG_STATE_HOME`, or under `~/.local/state` when that is unset; nothing
/// when neither it nor the home directory is known.
pub fn chip_tool_state_dir(xdg_state_home: Option<String>, home: Option<String>) -> (r: Option<
    String,
>)
    ensures
        opt_chars(r) == match base_dir_of(
            opt_chars(xdg_state_home),
            opt_chars(home),
            ".local/state"@,
        ) {
            Some(b) => Some(
                joined_path(joined_path(joined_path(b, "phosyncra"@), "matter"@), "chip-tool"@),
            ),
            None => None::<Seq<char>>,
        },
{
    match base_dir(xdg_state_home, home, ".local/state") {
        Some(b) => {
            let app = join_path(b.as_str(), "phosyncra");
            let matter = join_path(app.as_str(), "matter");
            Some(join_path(matter.as_str(), "chip-tool"))
        },
        None => None,
    }
}

} // verus!
