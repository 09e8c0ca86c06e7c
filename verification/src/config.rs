//! Per-project desired state: the configuration document and the project it
//! belongs to, with the naming rules for the container that backs it.

use vstd::prelude::*;
use vstd::string::StrSliceExecFns;
use vstd::string::StringExecFns;

use crate::version::dec_digits;
use crate::version::PostgresVersion;

verus! {

/// The declarative configuration stored in a project's `pgd.toml`.
pub struct PGDConfig {
    /// PostgreSQL version to use.
    pub version: PostgresVersion,
    /// Database password.
    pub password: String,
    /// Port to bind on the host.
    pub port: u16,
}

/// A directory holding one configuration document, identified by its name.
pub struct Project {
    /// Project name, derived from the directory name.
    pub name: String,
    /// Path of the project directory containing `pgd.toml`.
    pub path: String,
    /// The desired state read from `pgd.toml`.
    pub config: PGDConfig,
}

/// The name of the container backing a project:
/// `pgd-<name>-<major>_<minor>`.
pub open spec fn spec_container_name(name: Seq<char>, v: PostgresVersion) -> Seq<char> {
    "pgd-"@ + name + "-"@ + dec_digits(v.major as nat) + "_"@ + dec_digits(v.minor as nat)
}

/// The location of a project's configuration document: the directory path
/// with `pgd.toml` appended, inserting a `/` unless one is already there.
pub open spec fn spec_config_path(path: Seq<char>) -> Seq<char> {
    if path.len() > 0 && path[path.len() - 1] == '/' {
        path + "pgd.toml"@
    } else {
        path + "/pgd.toml"@
    }
}

/// The index just after the last `'/'` in `s`, or `0` when there is none.
pub open spec fn after_last_slash(s: Seq<char>) -> int
    decreases s.len(),
{
    if s.len() == 0 {
        0
    } else if s[s.len() - 1] == '/' {
        s.len() as int
    } else {
        after_last_slash(s.drop_last())
    }
}

impl Project {
    /// The name of the container that backs this project.
    pub fn container_name(&self) -> (r: String)
        ensures
            r@ == spec_container_name(self.name@, self.config.version),
    {
        let mut s = String::from_str("pgd-");
        s.append(self.name.as_str());
        s.append("-");
        let major = crate::version::decimal_string(self.config.version.major);
        s.append(major.as_str());
        s.append("_");
        let minor = crate::version::decimal_string(self.config.version.minor);
        s.append(minor.as_str());
        s
    }

    /// The path of this project's `pgd.toml`.
    pub fn config_path(&self) -> (r: String)
        ensures
            r@ == spec_config_path(self.path@),
    {
        let mut s = self.path.clone();
        let len = s.as_str().unicode_len();
        if len > 0 && s.as_str().get_char(len - 1) == '/' {
            s.append("pgd.toml");
        } else {
            s.append("/pgd.toml");
        }
        s
    }

    /// The project name a directory path denotes: the component after the
    /// last `'/'`, or the whole path when there is no `'/'`.  A path that
    /// ends in `'/'` has no name.
    pub fn extract_project_name(path: &str) -> (r: Option<String>)
        ensures
            match r {
                Some(name) => after_last_slash(path@) < path@.len() && name@ == path@.subrange(
                    after_last_slash(path@),
                    path@.len() as int,
                ),
                None => after_last_slash(path@) == path@.len(),
            },
    {
        let len = path.unicode_len();
        let mut cut: usize = 0;
        let mut i: usize = 0;
        while i < len
            invariant
                0 <= cut <= i <= len,
                len == path@.len(),
                cut == after_last_slash(path@.subrange(0, i as int)),
            decreases len - i,
        {
            proof {
                assert(path@.subrange(0, i + 1).drop_last() =~= path@.subrange(0, i as int));
            }
            if path.get_char(i) == '/' {
                cut = i + 1;
            }
            i += 1;
        }
        proof {
            assert(path@.subrange(0, len as int) =~= path@);
        }
        if cut == len {
            None
        } else {
            let name = path.substring_char(cut, len);
            Some(String::from_str(name))
        }
    }
}

} // verus!
