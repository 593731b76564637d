//! Container configuration handed to the Docker daemon.
//!
//! The daemon itself is an external collaborator; this module holds the
//! settings computed for it and the path normalisation they need.

use vstd::prelude::*;

use crate::strutil::{chars_of, string_of};

verus! {

/// Represents container configuration options
#[derive(Debug, Clone)]
pub struct ContainerConfig {
    pub host_port: u16,
    pub container_port: u16,
    pub data_mount_path: Option<String>,
}

/// Every backslash turned into a forward slash.
pub open spec fn slashify(s: Seq<char>) -> Seq<char> {
    s.map_values(|c: char| if c == '\\' { '/' } else { c })
}

/// The sequence with its trailing slashes removed.
pub open spec fn trim_trailing_slashes(s: Seq<char>) -> Seq<char>
    decreases s.len(),
{
    if s.len() > 0 && s.last() == '/' {
        trim_trailing_slashes(s.drop_last())
    } else {
        s
    }
}

/// A path as Docker expects it: forward slashes only, none at the end.
pub open spec fn mount_string_of(s: Seq<char>) -> Seq<char> {
    trim_trailing_slashes(slashify(s))
}

impl ContainerConfig {
    /// Convert a path to a Docker-compatible mount path string
    pub fn path_to_mount_string(path: &str) -> (r: String)
        ensures
            r@ == mount_string_of(path@),
    {
        let cs = chars_of(path);
        let n = cs.len();
        let mut v: Vec<char> = Vec::new();
        let mut i: usize = 0;
        while i < n
            invariant
                n == cs@.len(),
                cs@ == path@,
                i <= n,
                v@ == slashify(path@.take(i as int)),
            decreases n - i,
        {
            let c = cs[i];
            if c == '\\' {
                v.push('/');
            } else {
                v.push(c);
            }
            proof {
                assert(v@ =~= slashify(path@.take(i + 1)));
            }
            i += 1;
        }
        proof {
            assert(path@.take(n as int) =~= path@);
        }
        while v.len() > 0 && v[v.len() - 1] == '/'
            invariant
                trim_trailing_slashes(v@) == mount_string_of(path@),
            decreases v@.len(),
        {
            let ghost before = v@;
            v.pop();
            proof {
                assert(v@ =~= before.drop_last());
            }
        }
        proof {
            assert(trim_trailing_slashes(v@) == v@);
        }
        string_of(v)
    }
}

impl Default for ContainerConfig {
    /// Both ports 8090, nothing mounted.
    fn default() -> (r: Self)
        ensures
            r.host_port == 8090,
            r.container_port == 8090,
            r.data_mount_path is None,
    {
        Self { host_port: 8090, container_port: 8090, data_mount_path: None }
    }
}

} // verus!
