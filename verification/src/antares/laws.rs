//! What holds of every registry, stated over the records that a manager
//! lists and the map of its mounts.

use vstd::prelude::*;
use super::layer_id::is_layer_id;
use super::layer_id::lemma_layer_id_is_plain_name;
use super::manager::provisioned;
use super::paths::join_spec;
use super::paths::AntaresPathsView;
use super::record::AntaresConfigView;
use super::registry::distinct_jobs;
use super::registry::has_job;
use super::registry::index_by_job;
use super::registry::lemma_upsert_is_insert;
use super::registry::lemma_without_is_remove;
use super::registry::lemma_index_len;
use super::registry::lemma_loaded_map_of_distinct;
use super::registry::views_of;
use super::state::load_spec;
use super::state::AntaresErrorView;
use super::state::AntaresState;
use super::state::StateSource;
use super::registry::position_of;
use super::registry::upsert;
use super::registry::without_job;

verus! {

/// A mount that was registered is listed: its record stands in the list of
/// records, and so in the state document written after the mount, and it is
/// the record found under its job.
pub proof fn lemma_mounted_job_is_listed(entries: Seq<AntaresConfigView>, record: AntaresConfigView)
    requires
        distinct_jobs(entries),
    ensures
        has_job(upsert(entries, record), record.job_id),
        upsert(entries, record)[position_of(upsert(entries, record), record.job_id)] == record,
        index_by_job(upsert(entries, record))[record.job_id] == record,
{
    lemma_upsert_is_insert(entries, record);
    assert(index_by_job(upsert(entries, record)).contains_key(record.job_id));
}

/// Mounting a job that is already active replaces its record: the second
/// record is the one found under the job, no record is added, and the
/// registry is as if the first mount had never been made.
pub proof fn lemma_remount_replaces(
    entries: Seq<AntaresConfigView>,
    first: AntaresConfigView,
    second: AntaresConfigView,
)
    requires
        distinct_jobs(entries),
        first.job_id == second.job_id,
    ensures
        index_by_job(upsert(upsert(entries, first), second))[second.job_id] == second,
        index_by_job(upsert(upsert(entries, first), second)) == index_by_job(upsert(entries, second)),
        upsert(upsert(entries, first), second).len() == upsert(entries, first).len(),
{
    let once = upsert(entries, first);
    let twice = upsert(once, second);
    lemma_upsert_is_insert(entries, first);
    lemma_upsert_is_insert(once, second);
    lemma_upsert_is_insert(entries, second);
    assert(index_by_job(once).contains_key(first.job_id));
    assert(has_job(once, second.job_id));
    assert(index_by_job(twice) =~= index_by_job(upsert(entries, second)));
}

/// Mounts of two different jobs do not touch each other: each job's record
/// is found under its own name, whichever was mounted first, and a registry
/// that was empty then holds exactly the two.
pub proof fn lemma_mounts_are_independent(
    entries: Seq<AntaresConfigView>,
    a: AntaresConfigView,
    b: AntaresConfigView,
)
    requires
        distinct_jobs(entries),
        a.job_id != b.job_id,
    ensures
        index_by_job(upsert(upsert(entries, a), b))[a.job_id] == a,
        index_by_job(upsert(upsert(entries, a), b))[b.job_id] == b,
        index_by_job(upsert(upsert(entries, a), b)) == index_by_job(upsert(upsert(entries, b), a)),
        entries.len() == 0 ==> upsert(upsert(entries, a), b).len() == 2,
        entries.len() == 0 ==> index_by_job(upsert(upsert(entries, a), b)).len() == 2,
{
    let with_a = upsert(entries, a);
    let with_b = upsert(entries, b);
    lemma_upsert_is_insert(entries, a);
    lemma_upsert_is_insert(with_a, b);
    lemma_upsert_is_insert(entries, b);
    lemma_upsert_is_insert(with_b, a);
    assert(index_by_job(upsert(with_a, b)) =~= index_by_job(upsert(with_b, a)));
    if entries.len() == 0 {
        assert(!has_job(entries, a.job_id));
        if has_job(with_a, b.job_id) {
            let p = position_of(with_a, b.job_id);
            assert(with_a[p] == a);
        }
        lemma_index_len(upsert(with_a, b));
    }
}

/// Tearing down a job that is not mounted changes nothing.
pub proof fn lemma_unmount_of_absent_job(entries: Seq<AntaresConfigView>, job: Seq<char>)
    requires
        distinct_jobs(entries),
        !index_by_job(entries).contains_key(job),
    ensures
        without_job(entries, job) == entries,
        index_by_job(without_job(entries, job)) == index_by_job(entries),
{
}

/// Tearing down an active job removes its record and no other: the job is
/// no longer found, one record fewer is listed, and every other job keeps its
/// record.
pub proof fn lemma_unmount_removes_exactly_one(entries: Seq<AntaresConfigView>, job: Seq<char>)
    requires
        distinct_jobs(entries),
        index_by_job(entries).contains_key(job),
    ensures
        !index_by_job(without_job(entries, job)).contains_key(job),
        without_job(entries, job).len() == entries.len() - 1,
        forall|other: Seq<char>|
            other != job && index_by_job(entries).contains_key(other) ==> index_by_job(
                without_job(entries, job),
            ).contains_key(other) && index_by_job(without_job(entries, job))[other] == index_by_job(
                entries,
            )[other],
{
    lemma_without_is_remove(entries, job);
    assert(has_job(entries, job));
}

/// A job goes from unregistered to active and back: tearing down a mount
/// that was made on a registry without that job gives the registry back as it
/// was.
pub proof fn lemma_unmount_undoes_mount(entries: Seq<AntaresConfigView>, record: AntaresConfigView)
    requires
        distinct_jobs(entries),
        !index_by_job(entries).contains_key(record.job_id),
    ensures
        without_job(upsert(entries, record), record.job_id) == entries,
        index_by_job(without_job(upsert(entries, record), record.job_id)) == index_by_job(entries),
{
    let mounted = upsert(entries, record);
    lemma_upsert_is_insert(entries, record);
    assert(!has_job(entries, record.job_id));
    assert(mounted == entries.push(record));
    assert(mounted[entries.len() as int].job_id == record.job_id);
    super::registry::lemma_position_unique(mounted, entries.len() as int);
    assert(without_job(mounted, record.job_id) =~= entries);
}

/// Reloading restores the mounts: a state document that lists no job twice,
/// as every document of a manager does, loads into the registry that holds
/// each listed record under its job, with or without a changelist layer.
pub proof fn lemma_reload_restores_mounts(state: AntaresState)
    requires
        distinct_jobs(views_of(state.mounts@)),
    ensures
        load_spec(StateSource::Document(state)) == Ok::<_, AntaresErrorView>(
            index_by_job(views_of(state.mounts@)),
        ),
        forall|i: int|
            0 <= i < state.mounts@.len() ==> index_by_job(views_of(state.mounts@))[(
                #[trigger] state.mounts@[i])@.job_id] == state.mounts@[i]@,
{
    let entries = views_of(state.mounts@);
    lemma_loaded_map_of_distinct(entries);
    assert forall|i: int| 0 <= i < entries.len() implies index_by_job(entries)[(
        #[trigger] state.mounts@[i])@.job_id] == state.mounts@[i]@ by {
        assert(entries[i] == state.mounts@[i]@);
        super::registry::lemma_position_unique(entries, i);
    }
}

/// Every record of `entries` has its changelist identifier and directory
/// together or neither.
pub open spec fn all_paired(entries: Seq<AntaresConfigView>) -> bool {
    forall|i: int| 0 <= i < entries.len() ==> (#[trigger] entries[i]).paired()
}

/// Mounting and tearing down keep the changelist fields paired: a registry
/// in which every record has both or neither stays so when a record that has
/// both or neither is registered, and when any job is removed.
pub proof fn lemma_pairing_is_kept(
    entries: Seq<AntaresConfigView>,
    record: AntaresConfigView,
    job: Seq<char>,
)
    requires
        all_paired(entries),
    ensures
        record.paired() ==> all_paired(upsert(entries, record)),
        all_paired(without_job(entries, job)),
{
    if record.paired() {
        let after = upsert(entries, record);
        assert forall|i: int| 0 <= i < after.len() implies (#[trigger] after[i]).paired() by {
            if after[i] != record {
                assert(after[i] == entries[i]);
            }
        }
    }
    let rest = without_job(entries, job);
    if has_job(entries, job) {
        let at = position_of(entries, job);
        assert forall|i: int| 0 <= i < rest.len() implies (#[trigger] rest[i]).paired() by {
            assert(rest[i] == entries[super::registry::skip_over(i, at)]);
        }
    }
}

/// A name that does not start with the separator is put under the root: the
/// joined path begins with the root and ends with the name. The default
/// mountpoint of such a job therefore lies under the mount root.
pub proof fn lemma_join_stays_under_root(root: Seq<char>, name: Seq<char>)
    requires
        name.len() == 0 || name[0] != '/',
    ensures
        root.is_prefix_of(join_spec(root, name)),
        name.is_suffix_of(join_spec(root, name)),
        join_spec(root, name).len() <= root.len() + 1 + name.len(),
{
    let joined = join_spec(root, name);
    assert(joined.subrange(0, root.len() as int) =~= root);
    assert(joined.subrange(joined.len() - name.len(), joined.len() as int) =~= name);
}

/// The layer directories of a provisioned mount are not empty and lie under
/// their roots, each ending with the layer's identifier.
pub proof fn lemma_layer_dirs_lie_under_roots(
    paths: AntaresPathsView,
    job_id: Seq<char>,
    mountpoint: Seq<char>,
    with_changelist: bool,
    record: AntaresConfigView,
)
    requires
        provisioned(paths, job_id, mountpoint, with_changelist, record),
    ensures
        record.paired(),
        record.upper_dir.len() > 0,
        paths.upper_root.is_prefix_of(record.upper_dir),
        record.upper_id.is_suffix_of(record.upper_dir),
        record.cl_dir matches Some(dir) ==> dir.len() > 0 && paths.cl_root.is_prefix_of(dir)
            && record.cl_id.unwrap().is_suffix_of(dir),
{
    lemma_layer_id_is_plain_name(record.upper_id);
    lemma_join_stays_under_root(paths.upper_root, record.upper_id);
    if let Some(id) = record.cl_id {
        lemma_layer_id_is_plain_name(id);
        lemma_join_stays_under_root(paths.cl_root, id);
    }
}

/// Layers with different identifiers have different directories, whatever
/// their roots are. So the writable layer and the changelist layer of a mount
/// share no directory unless the two draws gave the same identifier.
pub proof fn lemma_distinct_ids_give_distinct_dirs(
    root_a: Seq<char>,
    id_a: Seq<char>,
    root_b: Seq<char>,
    id_b: Seq<char>,
)
    requires
        is_layer_id(id_a),
        is_layer_id(id_b),
        id_a != id_b,
    ensures
        join_spec(root_a, id_a) != join_spec(root_b, id_b),
{
    lemma_layer_id_is_plain_name(id_a);
    lemma_layer_id_is_plain_name(id_b);
    lemma_join_stays_under_root(root_a, id_a);
    lemma_join_stays_under_root(root_b, id_b);
    let a = join_spec(root_a, id_a);
    let b = join_spec(root_b, id_b);
    if a == b {
        assert(a.subrange(a.len() - 36, a.len() as int) == id_a);
        assert(b.subrange(b.len() - 36, b.len() as int) == id_b);
    }
}

} // verus!
