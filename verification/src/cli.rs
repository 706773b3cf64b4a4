//! The command-line front: which directory the stubs are served from. The
//! `root-dir` option points at a directory holding a `mappings` folder of stub
//! files and takes precedence over the plain directory argument; both are
//! taken relative to the current directory.

use vstd::prelude::*;

use crate::model::Config;
use crate::text::str_eq;

verus! {

/// One entry of a directory listing, reduced to what the decision reads.
#[derive(Debug)]
pub struct FolderEntry {
    pub name: String,
    pub is_dir: bool,
}

/// The command-line arguments: stub directory, root directory, port.
#[derive(Debug)]
pub struct Cli {
    pub dir: Option<String>,
    pub root_dir: Option<String>,
    pub port: Option<u16>,
}

/// One path joined under another with a separator.
pub open spec fn spec_join(a: Seq<char>, b: Seq<char>) -> Seq<char> {
    a + seq!['/'] + b
}

/// The directory the stubs are served from: the root directory's `mappings`
/// folder when a root directory is given and holds one, else the given
/// directory, else the current directory itself.
pub open spec fn spec_stubs_dir(cli: Cli, current: Seq<char>, root_has_mappings: bool) -> Seq<
    char,
> {
    if cli.root_dir is Some && root_has_mappings {
        spec_join(current, spec_join(cli.root_dir->0@, "mappings"@))
    } else if cli.dir is Some {
        spec_join(current, cli.dir->0@)
    } else {
        current
    }
}

pub open spec fn spec_is_mappings_folder(e: FolderEntry) -> bool {
    e.is_dir && e.name@ == "mappings"@
}

fn join(a: &str, b: &str) -> (r: String)
    ensures
        r@ == spec_join(a@, b@),
{
    proof {
        reveal_strlit("/");
    }
    let mut out = a.to_owned();
    out.append("/");
    out.append(b);
    proof {
        assert(out@ =~= spec_join(a@, b@));
    }
    out
}

impl Cli {
    /// Where the stubs are: `current` is the process's current directory and
    /// `root_has_mappings` reports whether the root directory holds a
    /// `mappings` folder (both supplied by the caller, which does the I/O).
    pub fn stubs_dir(&self, current: &str, root_has_mappings: bool) -> (r: String)
        ensures
            r@ == spec_stubs_dir(*self, current@, root_has_mappings),
    {
        match &self.root_dir {
            Some(rd) => {
                if root_has_mappings {
                    let inner = join(rd.as_str(), "mappings");
                    return join(current, inner.as_str());
                }
            },
            None => {},
        }
        match &self.dir {
            Some(d) => join(current, d.as_str()),
            None => current.to_owned(),
        }
    }

    pub fn is_mappings_folder(e: &FolderEntry) -> (r: bool)
        ensures
            r == spec_is_mappings_folder(*e),
    {
        e.is_dir && str_eq(e.name.as_str(), "mappings")
    }

    /// Whether a directory listing holds a `mappings` folder.
    pub fn does_contains_mappings_folder(entries: &Vec<FolderEntry>) -> (r: bool)
        ensures
            r == exists|i: int|
                0 <= i < entries@.len() && spec_is_mappings_folder(#[trigger] entries@[i]),
    {
        let mut i: usize = 0;
        while i < entries.len()
            invariant
                i <= entries@.len(),
                forall|j: int| 0 <= j < i ==> !spec_is_mappings_folder(#[trigger] entries@[j]),
            decreases entries@.len() - i,
        {
            if Cli::is_mappings_folder(&entries[i]) {
                return true;
            }
            i = i + 1;
        }
        false
    }

    /// The server configuration the arguments stand for: only the port is
    /// taken from the command line.
    pub fn config(&self) -> (r: Config)
        ensures
            r.port == self.port,
            r.global_delay is None,
            r.latency is None,
            !r.verify,
    {
        Config { port: self.port, global_delay: None, latency: None, verify: false }
    }
}

} // verus!
