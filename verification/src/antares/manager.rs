//! The mount lifecycle manager.
//!
//! The manager decides; its caller acts. A mount runs in two steps: the
//! manager provisions the layers and hands out the record, the caller creates
//! the directories that the record lists, and the manager registers the record
//! and hands out the state document to write. A teardown runs likewise: the
//! caller looks the job up, runs the unmount tool on its mountpoint, and hands
//! the tool's report to the manager, which removes the record and hands out
//! the state document.

use vstd::prelude::*;
use vstd::string::*;
use super::layer_id::fresh_layer_id;
use super::layer_id::is_layer_id;
use super::paths::join_spec;
use super::paths::AntaresPaths;
use super::paths::AntaresPathsView;
use super::record::record_spec;
use super::record::AntaresConfig;
use super::record::AntaresConfigView;
use super::registry::index_by_job;
use super::registry::distinct_jobs;
use super::registry::upsert;
use super::registry::views_of;
use super::registry::without_job;
use super::registry::MountRegistry;
use super::state::load_spec;
use super::state::AntaresError;
use super::state::AntaresErrorView;
use super::state::AntaresState;
use super::state::StateSource;
use super::unmount::classify_spec;
use super::unmount::classify_unmount;
use super::unmount::UnmountOutcome;
use super::unmount::UnmountReport;

verus! {

/// `record` is what provisioning hands out for a job to be mounted at
/// `mountpoint`: the job and the mountpoint as given, a fresh identifier for
/// the writable layer, one for the changelist layer exactly when a changelist
/// was asked for, and each layer directory under its root.
pub open spec fn provisioned(
    paths: AntaresPathsView,
    job_id: Seq<char>,
    mountpoint: Seq<char>,
    with_changelist: bool,
    record: AntaresConfigView,
) -> bool {
    &&& record == record_spec(paths, job_id, mountpoint, record.upper_id, record.cl_id)
    &&& is_layer_id(record.upper_id)
    &&& record.cl_id.is_some() == with_changelist
    &&& record.cl_id matches Some(id) ==> is_layer_id(id)
}

/// What a teardown hands back: the record that was removed, how the run of
/// the unmount tool was classified, and the state document to write.
#[derive(Debug)]
pub struct Removal {
    pub record: AntaresConfig,
    pub outcome: UnmountOutcome,
    pub state: AntaresState,
}

/// Creates, tracks and tears down the overlay mounts of jobs.
pub struct AntaresManager {
    paths: AntaresPaths,
    instances: MountRegistry,
}

impl AntaresManager {
    /// The locations that the manager was built with.
    pub closed spec fn paths_view(&self) -> AntaresPathsView {
        self.paths@
    }

    /// The active mounts: each job's record under the job's name.
    pub closed spec fn mounts(&self) -> Map<Seq<char>, AntaresConfigView> {
        self.instances@
    }

    /// The active records in the order in which they are listed and
    /// persisted.
    pub closed spec fn entries(&self) -> Seq<AntaresConfigView> {
        self.instances.entries()
    }

    /// No job is registered twice, and the map of the mounts holds exactly the
    /// listed records.
    pub closed spec fn wf(&self) -> bool {
        self.instances.wf()
    }

    /// The mounts are the listed records, each under its job.
    pub proof fn lemma_mounts_are_entries(&self)
        requires
            self.wf(),
        ensures
            distinct_jobs(self.entries()),
            self.mounts() == index_by_job(self.entries()),
    {
    }

    /// Rebuilds the registry from what was found at the location of the state
    /// document.
    ///
    /// A missing document is a first run and gives the empty registry. A
    /// document that is there and cannot be used is never taken for an empty
    /// one: it is an error.
    pub fn load_state(source: &StateSource) -> (loaded: Result<MountRegistry, AntaresError>)
        ensures
            match loaded {
                Ok(registry) => registry.wf() && load_spec(*source) == Ok::<_, AntaresErrorView>(registry@),
                Err(error) => load_spec(*source) == Err::<Map<Seq<char>, AntaresConfigView>, _>(error@),
            },
    {
        match source {
            StateSource::Missing => Ok(MountRegistry::new()),
            StateSource::Unreadable(why) => Err(AntaresError::Io(why.clone())),
            StateSource::Malformed(why) => {
                let mut text = String::from_str("parse state: ");
                text.append(why.as_str());
                Err(AntaresError::InvalidData(text))
            },
            StateSource::Document(state) => Ok(MountRegistry::from_records(&state.mounts)),
        }
    }

    /// Builds a manager over `paths` that starts with the mounts of the state
    /// document.
    ///
    /// No document gives a manager without mounts. A document that cannot be
    /// read or understood gives no manager: the mounts it may list are not
    /// forgotten behind an empty registry.
    pub fn new(paths: AntaresPaths, source: &StateSource) -> (built: Result<Self, AntaresError>)
        ensures
            match built {
                Ok(manager) => {
                    &&& manager.wf()
                    &&& manager.paths_view() == paths@
                    &&& load_spec(*source) == Ok::<_, AntaresErrorView>(manager.mounts())
                },
                Err(error) => load_spec(*source) == Err::<Map<Seq<char>, AntaresConfigView>, _>(error@),
            },
    {
        match Self::load_state(source) {
            Ok(instances) => Ok(AntaresManager { paths, instances }),
            Err(error) => Err(error),
        }
    }

    /// The locations that the manager was built with.
    pub fn paths(&self) -> (paths: &AntaresPaths)
        ensures
            paths@ == self.paths_view(),
    {
        &self.paths
    }

    /// Provisions a mount of `job_id` at its default mountpoint, the job's
    /// name under the mount root: the same as [`AntaresManager::mount_job_at`]
    /// with that mountpoint.
    pub fn mount_job(&self, job_id: &str, cl_name: Option<&str>) -> (record: AntaresConfig)
        ensures
            provisioned(
                self.paths_view(),
                job_id@,
                join_spec(self.paths_view().mount_root, job_id@),
                cl_name.is_some(),
                record@,
            ),
            record@.paired(),
    {
        let mountpoint = self.paths.default_mountpoint(job_id);
        self.mount_job_at(job_id, mountpoint, cl_name)
    }

    /// Provisions a mount of `job_id` at `mountpoint`, which may lie anywhere.
    ///
    /// Draws a fresh identifier for the writable layer, and one for the
    /// changelist layer if `cl_name` is given, and builds the record. The
    /// registry does not change: the record becomes active with
    /// [`AntaresManager::commit_mount`], once its directories exist.
    pub fn mount_job_at(&self, job_id: &str, mountpoint: String, cl_name: Option<&str>) -> (record:
        AntaresConfig)
        ensures
            provisioned(self.paths_view(), job_id@, mountpoint@, cl_name.is_some(), record@),
            record@.paired(),
    {
        let upper_id = fresh_layer_id();
        let cl_id = match cl_name {
            Some(_) => Some(fresh_layer_id()),
            None => None,
        };
        AntaresConfig::build(&self.paths, job_id, mountpoint, upper_id, cl_id)
    }

    /// Registers a provisioned mount, given how the creation of its
    /// directories went.
    ///
    /// Where a directory could not be created the mount is given up: the
    /// registry stays as it was and the failure is handed back. Otherwise the
    /// record is registered, in place of an active record of the same job if
    /// there is one, and the state document to write is handed back.
    pub fn commit_mount(&mut self, record: AntaresConfig, dirs: Result<(), String>) -> (committed: Result<
        AntaresState,
        AntaresError,
    >)
        requires
            old(self).wf(),
        ensures
            final(self).wf(),
            final(self).paths_view() == old(self).paths_view(),
            committed.is_ok() == dirs.is_ok(),
            match committed {
                Ok(state) => {
                    &&& dirs.is_ok()
                    &&& final(self).mounts() == old(self).mounts().insert(record@.job_id, record@)
                    &&& final(self).entries() == upsert(old(self).entries(), record@)
                    &&& views_of(state.mounts@) == final(self).entries()
                },
                Err(error) => {
                    &&& dirs matches Err(why)
                    &&& error@ == AntaresErrorView::Io(why@)
                    &&& final(self).mounts() == old(self).mounts()
                    &&& final(self).entries() == old(self).entries()
                },
            },
    {
        match dirs {
            Err(why) => Err(AntaresError::Io(why)),
            Ok(_) => {
                self.instances.insert(record);
                Ok(self.persist_state())
            },
        }
    }

    /// A copy of the record of `job_id`, if the job is mounted.
    pub fn lookup(&self, job_id: &str) -> (found: Option<AntaresConfig>)
        requires
            self.wf(),
        ensures
            match found {
                Some(record) => self.mounts().contains_key(job_id@) && record@ == self.mounts()[job_id@],
                None => !self.mounts().contains_key(job_id@),
            },
    {
        self.instances.get(job_id)
    }

    /// Tears down the mount of `job_id`, given the report of the unmount tool
    /// on its mountpoint.
    ///
    /// A job that is not mounted gives `None` and changes nothing. Where the
    /// tool could not be launched the teardown fails and the record stays.
    /// Where the tool ran, the record is removed whatever the tool reported:
    /// no stale record is left behind a failed unmount.
    pub fn umount_job(&mut self, job_id: &str, report: &UnmountReport) -> (done: Result<
        Option<Removal>,
        AntaresError,
    >)
        requires
            old(self).wf(),
        ensures
            final(self).wf(),
            final(self).paths_view() == old(self).paths_view(),
            !old(self).mounts().contains_key(job_id@) ==> done matches Ok(None),
            old(self).mounts().contains_key(job_id@) ==> (match *report {
                UnmountReport::SpawnFailed(_) => done is Err,
                UnmountReport::Exited { .. } => done matches Ok(Some(_)),
            }),
            match done {
                Ok(None) => {
                    &&& !old(self).mounts().contains_key(job_id@)
                    &&& final(self).mounts() == old(self).mounts()
                    &&& final(self).entries() == old(self).entries()
                },
                Err(error) => {
                    &&& old(self).mounts().contains_key(job_id@)
                    &&& *report matches UnmountReport::SpawnFailed(why)
                    &&& error@ == AntaresErrorView::Spawn(why@)
                    &&& final(self).mounts() == old(self).mounts()
                    &&& final(self).entries() == old(self).entries()
                },
                Ok(Some(removal)) => {
                    &&& old(self).mounts().contains_key(job_id@)
                    &&& *report matches UnmountReport::Exited { success, diagnostic }
                    &&& removal.outcome@ == classify_spec(success, diagnostic@)
                    &&& removal.record@ == old(self).mounts()[job_id@]
                    &&& final(self).mounts() == old(self).mounts().remove(job_id@)
                    &&& final(self).entries() == without_job(old(self).entries(), job_id@)
                    &&& views_of(removal.state.mounts@) == final(self).entries()
                },
            },
    {
        if !self.instances.contains(job_id) {
            return Ok(None);
        }
        match report {
            UnmountReport::SpawnFailed(why) => Err(AntaresError::Spawn(why.clone())),
            UnmountReport::Exited { success, diagnostic } => {
                let outcome = classify_unmount(*success, diagnostic.as_str());
                let removed = self.instances.remove(job_id);
                let state = self.persist_state();
                Ok(Some(Removal { record: removed.unwrap(), outcome, state }))
            },
        }
    }

    /// Every active record, at this moment.
    pub fn list(&self) -> (records: Vec<AntaresConfig>)
        requires
            self.wf(),
        ensures
            views_of(records@) == self.entries(),
            distinct_jobs(views_of(records@)),
            index_by_job(views_of(records@)) == self.mounts(),
    {
        self.instances.snapshot()
    }

    /// The state document of this moment: every active record, none twice.
    pub fn persist_state(&self) -> (state: AntaresState)
        requires
            self.wf(),
        ensures
            views_of(state.mounts@) == self.entries(),
            load_spec(StateSource::Document(state)) == Ok::<_, AntaresErrorView>(self.mounts()),
    {
        let mounts = self.instances.snapshot();
        proof {
            super::registry::lemma_loaded_map_of_distinct(views_of(mounts@));
        }
        AntaresState { mounts }
    }
}

} // verus!
