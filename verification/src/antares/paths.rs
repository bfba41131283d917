//! The configured roots, and the rule by which a name is put under a root.

use vstd::prelude::*;
use vstd::string::*;

verus! {

/// The path of `name` under `base`.
///
/// A name that starts with the separator stands for itself. Otherwise the
/// name follows the base, with one separator between them unless the base is
/// empty or already ends in one.
pub open spec fn join_spec(base: Seq<char>, name: Seq<char>) -> Seq<char> {
    if name.len() > 0 && name[0] == '/' {
        name
    } else if base.len() == 0 || base[base.len() - 1] == '/' {
        base + name
    } else {
        base + seq!['/'] + name
    }
}

/// Joins `name` to `base` as [`join_spec`] says.
pub fn join_path(base: &str, name: &str) -> (joined: String)
    ensures
        joined@ == join_spec(base@, name@),
{
    let name_len: usize = name.unicode_len();
    if name_len > 0 && name.get_char(0) == '/' {
        return String::from_str(name);
    }
    let base_len: usize = base.unicode_len();
    let mut joined = String::from_str(base);
    if base_len > 0 && base.get_char(base_len - 1) != '/' {
        proof {
            reveal_strlit("/");
            assert("/"@ =~= seq!['/']);
        }
        joined.append("/");
    }
    joined.append(name);
    joined
}

/// Where the manager keeps its layers, its mountpoints and its state.
///
/// The four locations are fixed when the manager is built.
#[derive(Debug)]
pub struct AntaresPaths {
    /// Root directory of the per-job writable layers.
    pub upper_root: String,
    /// Root directory of the changelist layers.
    pub cl_root: String,
    /// Root directory of the default mountpoints.
    pub mount_root: String,
    /// Location of the persisted state document.
    pub state_file: String,
}

/// The four locations as character sequences.
pub struct AntaresPathsView {
    pub upper_root: Seq<char>,
    pub cl_root: Seq<char>,
    pub mount_root: Seq<char>,
    pub state_file: Seq<char>,
}

impl View for AntaresPaths {
    type V = AntaresPathsView;

    open spec fn view(&self) -> AntaresPathsView {
        AntaresPathsView {
            upper_root: self.upper_root@,
            cl_root: self.cl_root@,
            mount_root: self.mount_root@,
            state_file: self.state_file@,
        }
    }
}

impl Clone for AntaresPaths {
    fn clone(&self) -> (copy: Self)
        ensures
            copy@ == self@,
    {
        AntaresPaths {
            upper_root: self.upper_root.clone(),
            cl_root: self.cl_root.clone(),
            mount_root: self.mount_root.clone(),
            state_file: self.state_file.clone(),
        }
    }
}

impl AntaresPaths {
    /// Puts the four locations together.
    pub fn new(upper_root: String, cl_root: String, mount_root: String, state_file: String) -> (paths: Self)
        ensures
            paths.upper_root == upper_root,
            paths.cl_root == cl_root,
            paths.mount_root == mount_root,
            paths.state_file == state_file,
            paths@ == (AntaresPathsView {
                upper_root: upper_root@,
                cl_root: cl_root@,
                mount_root: mount_root@,
                state_file: state_file@,
            }),
    {
        AntaresPaths { upper_root, cl_root, mount_root, state_file }
    }

    /// Builds the paths from the four values of the process-wide
    /// configuration, which the caller has read.
    pub fn from_global_config(
        antares_upper_root: &str,
        antares_cl_root: &str,
        antares_mount_root: &str,
        antares_state_file: &str,
    ) -> (paths: Self)
        ensures
            paths@ == (AntaresPathsView {
                upper_root: antares_upper_root@,
                cl_root: antares_cl_root@,
                mount_root: antares_mount_root@,
                state_file: antares_state_file@,
            }),
    {
        AntaresPaths {
            upper_root: String::from_str(antares_upper_root),
            cl_root: String::from_str(antares_cl_root),
            mount_root: String::from_str(antares_mount_root),
            state_file: String::from_str(antares_state_file),
        }
    }

    /// The default mountpoint of a job: the job's name under the mount root.
    pub fn default_mountpoint(&self, job_id: &str) -> (mountpoint: String)
        ensures
            mountpoint@ == join_spec(self.mount_root@, job_id@),
    {
        join_path(self.mount_root.as_str(), job_id)
    }
}

} // verus!
