//! Small services that the scripting host calls besides drawing.

use vstd::prelude::*;
use crate::scan::{push_chars, string_from_chars, to_chars};

verus! {

/// A request to stop, raised by a script and read by the loop that drives
/// the scripts.
#[derive(Clone, Copy, Debug, PartialEq, Eq, Structural)]
pub struct AbortFlag {
    pub requested: bool,
}

impl AbortFlag {
    /// A flag that nobody has raised.
    pub fn new() -> (flag: AbortFlag)
        ensures
            !flag.requested,
    {
        AbortFlag { requested: false }
    }
}

/// Raises the flag. The message is not kept. The script that asks goes on
/// running; the driving loop stops when it next looks at the flag.
pub fn panic(flag: &mut AbortFlag, _msg: String)
    ensures
        final(flag).requested,
{
    flag.requested = true;
}

/// The path `more` as seen from the directory `path`, with `/` between
/// directories: `more` itself if it starts at the root, else `path` and
/// `more` with one `/` between them unless `path` is empty or brings its
/// own.
pub open spec fn joined_path(path: Seq<char>, more: Seq<char>) -> Seq<char> {
    if more.len() > 0 && more[0] == '/' {
        more
    } else if path.len() == 0 || path.last() == '/' {
        path + more
    } else {
        path + seq!['/'] + more
    }
}

/// Joins two paths.
pub fn path_join(path: String, more: String) -> (joined: String)
    ensures
        joined@ == joined_path(path@, more@),
{
    let tail = to_chars(more.as_str());
    if tail.len() > 0 && tail[0] == '/' {
        return more;
    }
    let mut out = to_chars(path.as_str());
    if out.len() > 0 && out[out.len() - 1] != '/' {
        out.push('/');
    }
    push_chars(&tail, &mut out);
    assert(out@ =~= joined_path(path@, more@));
    string_from_chars(out)
}

} // verus!
