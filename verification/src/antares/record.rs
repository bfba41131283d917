//! The record of one active mount.

use vstd::prelude::*;
use vstd::string::*;
use super::paths::join_spec;
use super::paths::join_path;
use super::paths::AntaresPaths;
use super::paths::AntaresPathsView;

verus! {

/// What is kept, and persisted, for one mounted job.
#[derive(Debug)]
pub struct AntaresConfig {
    /// The job's name: the key under which the mount is registered.
    pub job_id: String,
    /// Directory at which the composed tree is exposed.
    pub mountpoint: String,
    /// Identifier of the job's writable layer.
    pub upper_id: String,
    /// Directory of the writable layer.
    pub upper_dir: String,
    /// Directory of the changelist layer, if the job has one.
    pub cl_dir: Option<String>,
    /// Identifier of the changelist layer, if the job has one.
    pub cl_id: Option<String>,
}

/// A record as plain character sequences.
pub struct AntaresConfigView {
    pub job_id: Seq<char>,
    pub mountpoint: Seq<char>,
    pub upper_id: Seq<char>,
    pub upper_dir: Seq<char>,
    pub cl_dir: Option<Seq<char>>,
    pub cl_id: Option<Seq<char>>,
}

/// The characters of an optional string.
pub open spec fn opt_text(s: Option<String>) -> Option<Seq<char>> {
    match s {
        Some(t) => Some(t@),
        None => None,
    }
}

/// The record of a job mounted at `mountpoint` whose layers carry the given
/// identifiers: each layer directory is its identifier under its root, and the
/// changelist directory is there exactly when a changelist identifier is.
pub open spec fn record_spec(
    paths: AntaresPathsView,
    job_id: Seq<char>,
    mountpoint: Seq<char>,
    upper_id: Seq<char>,
    cl_id: Option<Seq<char>>,
) -> AntaresConfigView {
    AntaresConfigView {
        job_id,
        mountpoint,
        upper_id,
        upper_dir: join_spec(paths.upper_root, upper_id),
        cl_dir: match cl_id {
            Some(id) => Some(join_spec(paths.cl_root, id)),
            None => None,
        },
        cl_id,
    }
}

impl AntaresConfigView {
    /// The changelist identifier and directory are present together or absent
    /// together.
    pub open spec fn paired(self) -> bool {
        self.cl_dir.is_some() == self.cl_id.is_some()
    }

    /// The directories that must exist before the mount is registered, in the
    /// order in which they are created: writable layer, changelist layer,
    /// mountpoint.
    pub open spec fn layer_dirs(self) -> Seq<Seq<char>> {
        match self.cl_dir {
            Some(cl) => seq![self.upper_dir, cl, self.mountpoint],
            None => seq![self.upper_dir, self.mountpoint],
        }
    }
}

impl View for AntaresConfig {
    type V = AntaresConfigView;

    open spec fn view(&self) -> AntaresConfigView {
        AntaresConfigView {
            job_id: self.job_id@,
            mountpoint: self.mountpoint@,
            upper_id: self.upper_id@,
            upper_dir: self.upper_dir@,
            cl_dir: opt_text(self.cl_dir),
            cl_id: opt_text(self.cl_id),
        }
    }
}

/// A copy of an optional string.
fn clone_opt_text(s: &Option<String>) -> (copy: Option<String>)
    ensures
        opt_text(copy) == opt_text(*s),
{
    match s {
        Some(t) => Some(t.clone()),
        None => None,
    }
}

impl Clone for AntaresConfig {
    fn clone(&self) -> (copy: Self)
        ensures
            copy@ == self@,
    {
        AntaresConfig {
            job_id: self.job_id.clone(),
            mountpoint: self.mountpoint.clone(),
            upper_id: self.upper_id.clone(),
            upper_dir: self.upper_dir.clone(),
            cl_dir: clone_opt_text(&self.cl_dir),
            cl_id: clone_opt_text(&self.cl_id),
        }
    }
}

impl AntaresConfig {
    /// Builds the record of a job from the identifiers drawn for its layers.
    pub fn build(
        paths: &AntaresPaths,
        job_id: &str,
        mountpoint: String,
        upper_id: String,
        cl_id: Option<String>,
    ) -> (record: Self)
        ensures
            record@ == record_spec(paths@, job_id@, mountpoint@, upper_id@, opt_text(cl_id)),
            record@.paired(),
    {
        let upper_dir = join_path(paths.upper_root.as_str(), upper_id.as_str());
        let cl_dir = match &cl_id {
            Some(id) => Some(join_path(paths.cl_root.as_str(), id.as_str())),
            None => None,
        };
        AntaresConfig {
            job_id: String::from_str(job_id),
            mountpoint,
            upper_id,
            upper_dir,
            cl_dir,
            cl_id,
        }
    }

    /// The directories to create for this mount, in order: the writable layer,
    /// the changelist layer if there is one, then the mountpoint.
    pub fn layer_dirs(&self) -> (dirs: Vec<String>)
        ensures
            dirs@.len() == self@.layer_dirs().len(),
            forall|i: int| 0 <= i < dirs@.len() ==> (#[trigger] dirs@[i])@ == self@.layer_dirs()[i],
    {
        let mut dirs: Vec<String> = Vec::new();
        dirs.push(self.upper_dir.clone());
        match &self.cl_dir {
            Some(cl) => {
                dirs.push(cl.clone());
            },
            None => {},
        }
        dirs.push(self.mountpoint.clone());
        dirs
    }
}

} // verus!
