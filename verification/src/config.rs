//! The canonical data directory: `~/.flint/` is resolved by exactly one function, and
//! every other location Flint keeps data in is a path under it.
//!
//! Paths are text here. Joining follows `PathBuf::push` for a relative component: a `/`
//! goes between the two unless the base is empty or already ends with one.
use vstd::prelude::*;
use crate::text::owned;

verus! {

/// `base` joined with the relative path `rel`.
pub open spec fn path_join(base: Seq<char>, rel: Seq<char>) -> Seq<char> {
    if base.len() == 0 || base.last() == '/' {
        base + rel
    } else {
        base + "/"@ + rel
    }
}

/// A relative path component: one that `PathBuf::push` appends rather than substitutes.
pub open spec fn is_relative(rel: Seq<char>) -> bool {
    rel.len() == 0 || rel[0] != '/'
}

/// `base.join(rel)` for a relative `rel`.
pub fn join(base: &str, rel: &str) -> (r: String)
    requires
        is_relative(rel@),
    ensures
        r@ == path_join(base@, rel@),
{
    let n = base.unicode_len();
    if n == 0 || base.get_char(n - 1) == '/' {
        owned(base).concat(rel)
    } else {
        owned(base).concat("/").concat(rel)
    }
}

/// The home directory: `$HOME` when set, else the current directory.
pub open spec fn home_path(home: Option<Seq<char>>) -> Seq<char> {
    match home {
        Some(h) => h,
        None => "."@,
    }
}

pub open spec fn spec_data_dir(home: Option<Seq<char>>) -> Seq<char> {
    path_join(home_path(home), ".flint"@)
}

pub open spec fn opt_str_view(o: Option<&str>) -> Option<Seq<char>> {
    match o {
        Some(s) => Some(s@),
        None => None,
    }
}

fn home_dir(home: Option<&str>) -> (r: String)
    ensures
        r@ == home_path(opt_str_view(home)),
{
    match home {
        Some(h) => owned(h),
        None => owned("."),
    }
}

/// `~/.flint/`: the single data directory (models, chat transcripts, state), given the
/// value of `$HOME`.
pub fn data_dir(home: Option<&str>) -> (r: String)
    ensures
        r@ == spec_data_dir(opt_str_view(home)),
{
    proof {
        reveal_strlit(".flint");
    }
    join(home_dir(home).as_str(), ".flint")
}

/// `~/.flint/models/`: the model store.
pub fn models_dir(home: Option<&str>) -> (r: String)
    ensures
        r@ == path_join(spec_data_dir(opt_str_view(home)), "models"@),
{
    proof {
        reveal_strlit("models");
    }
    join(data_dir(home).as_str(), "models")
}

/// `~/.flint/bin/`: where sidecar binaries are installed in development.
pub fn bin_dir(home: Option<&str>) -> (r: String)
    ensures
        r@ == path_join(spec_data_dir(opt_str_view(home)), "bin"@),
{
    proof {
        reveal_strlit("bin");
    }
    join(data_dir(home).as_str(), "bin")
}

/// `~/.flint/opencode/`: the agent harness's isolated config directory.
pub fn opencode_dir(home: Option<&str>) -> (r: String)
    ensures
        r@ == path_join(spec_data_dir(opt_str_view(home)), "opencode"@),
{
    proof {
        reveal_strlit("opencode");
    }
    join(data_dir(home).as_str(), "opencode")
}

/// The chat transcript: `~/.flint/chat/current.jsonl`.
pub fn conversation_path(home: Option<&str>) -> (r: String)
    ensures
        r@ == path_join(path_join(spec_data_dir(opt_str_view(home)), "chat"@), "current.jsonl"@),
{
    proof {
        reveal_strlit("chat");
        reveal_strlit("current.jsonl");
    }
    let chat = join(data_dir(home).as_str(), "chat");
    join(chat.as_str(), "current.jsonl")
}

/// The persisted smoke-test record: `~/.flint/state.json`.
pub fn state_path(home: Option<&str>) -> (r: String)
    ensures
        r@ == path_join(spec_data_dir(opt_str_view(home)), "state.json"@),
{
    proof {
        reveal_strlit("state.json");
    }
    join(data_dir(home).as_str(), "state.json")
}

/// Where the workspace snapshot repositories live: `~/.flint/snapshots/`.
pub fn snapshot_root(home: Option<&str>) -> (r: String)
    ensures
        r@ == path_join(spec_data_dir(opt_str_view(home)), "snapshots"@),
{
    proof {
        reveal_strlit("snapshots");
    }
    join(data_dir(home).as_str(), "snapshots")
}

/// Every location lies inside the data directory, which itself lies under the home
/// directory: each is the data directory followed by `/` and a non-empty name, and the
/// data directory is never empty.
pub proof fn lemma_locations_under_data_dir(home: Option<Seq<char>>, name: Seq<char>)
    requires
        name.len() > 0,
        is_relative(name),
    ensures
        spec_data_dir(home).len() > 0,
        spec_data_dir(home).last() != '/',
        path_join(spec_data_dir(home), name) == spec_data_dir(home) + "/"@ + name,
        path_join(spec_data_dir(home), name).len() > spec_data_dir(home).len(),
{
    reveal_strlit(".flint");
    reveal_strlit("/");
    let d = spec_data_dir(home);
    let h = home_path(home);
    if h.len() == 0 || h.last() == '/' {
        assert(d == h + ".flint"@);
    } else {
        assert(d == h + "/"@ + ".flint"@);
    }
    assert(d.last() == 't');
}

} // verus!
