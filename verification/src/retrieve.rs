//! The cache-backed retrieval state machine.
//!
//! A retrieval request for a bundle name walks: local-disk check, cache
//! check, storage-key detection, download, extraction, cache store.  The
//! machine holds the decisions; the unverified shell performs each emitted
//! action against the object store, the key-value cache and the local
//! filesystem, and hands the answer back as the next event.  A cache-store
//! failure after a successful extraction fails the whole retrieval: the
//! cache is load-bearing on this path.

use vstd::prelude::*;
use crate::archive::{ArchiveFormat, spec_detect, storage_key};
use crate::codec::{spec_encode, spec_decode, encode_paths, lemma_decode_encode};
use crate::extract::{
    FsWrite, confined_to, lemma_file_paths_members, lemma_plan_confined, safe_component,
    spec_file_paths, spec_plan,
};
use crate::zip_store::{zip_well_formed, zip_entries_of, plan_from_archive_bytes};

verus! {

/// The local directory a bundle's contents are extracted into.
pub open spec fn spec_dir_for(name: Seq<char>) -> Seq<char> {
    "./competitions/"@ + name
}

/// Returns the local directory for a bundle name.
pub fn dir_for(name: &str) -> (d: String)
    ensures
        d@ == spec_dir_for(name@),
{
    let mut d = "./competitions/".to_owned();
    d.append(name);
    d
}

/// The cache key a bundle's extraction result is stored under.
pub open spec fn spec_cache_key(name: Seq<char>) -> Seq<char> {
    "file_cache:"@ + name
}

/// Returns the cache key for a bundle name.
pub fn cache_key_for(name: &str) -> (k: String)
    ensures
        k@ == spec_cache_key(name@),
{
    let mut k = "file_cache:".to_owned();
    k.append(name);
    k
}

/// The time-to-live, in seconds, of a cached extraction result.
pub const RESULT_TTL_SECONDS: u64 = 3600;

/// A bundle name that may be interpolated into a filesystem path: it is a
/// single safe path component, with neither slashes nor backslashes.  The
/// name is caller-supplied and untrusted.
pub open spec fn spec_safe_bundle_name(name: Seq<char>) -> bool {
    safe_component(name) && !name.contains('/') && !name.contains('\\')
}

/// Decides whether a caller-supplied bundle name is safe to use in a
/// filesystem path.
pub fn is_safe_bundle_name(name: &str) -> (r: bool)
    ensures
        r == spec_safe_bundle_name(name@),
{
    let len = name.unicode_len();
    if len == 0 {
        return false;
    }
    if crate::text::eq_exact(name, ".") || crate::text::eq_exact(name, "..") {
        proof {
            reveal_strlit(".");
            reveal_strlit("..");
        }
        return false;
    }
    proof {
        reveal_strlit(".");
        reveal_strlit("..");
    }
    let mut i: usize = 0;
    while i < len
        invariant
            len == name@.len(),
            i <= len,
            forall|j: int| 0 <= j < i ==> name@[j] != '/' && name@[j] != '\\',
        decreases len - i,
    {
        let c = name.get_char(i);
        if c == '/' || c == '\\' {
            assert(name@.contains('/') || name@.contains('\\'));
            return false;
        }
        i = i + 1;
    }
    proof {
        if name@.contains('/') {
            let j = choose|j: int| 0 <= j < name@.len() && name@[j] == '/';
        }
        if name@.contains('\\') {
            let j = choose|j: int| 0 <= j < name@.len() && name@[j] == '\\';
        }
    }
    true
}

/// The marker entry a successful tar.gz extraction reports in place of a
/// file list, which that path cannot observe.
pub fn tar_marker() -> (m: String)
    ensures
        m@ == "Extracted files successfully."@,
{
    "Extracted files successfully.".to_owned()
}

/// The paths whose write succeeded, in order: `paths[i]` is kept when
/// `flags[i]` is true; paths beyond the flags are dropped.
pub open spec fn spec_kept(paths: Seq<Seq<char>>, flags: Seq<bool>) -> Seq<Seq<char>>
    decreases paths.len(),
{
    if paths.len() == 0 || flags.len() == 0 {
        Seq::empty()
    } else {
        let rest = spec_kept(paths.drop_first(), flags.drop_first());
        if flags[0] {
            seq![paths[0]] + rest
        } else {
            rest
        }
    }
}

/// Keeps the paths whose write succeeded, as `spec_kept` describes.
#[verifier::loop_isolation(false)]
pub fn kept_paths(paths: &Vec<String>, flags: &Vec<bool>) -> (r: Vec<String>)
    ensures
        r@.map_values(|s: String| s@) == spec_kept(paths@.map_values(|s: String| s@), flags@),
{
    let ghost path_views = paths@.map_values(|s: String| s@);
    let mut r: Vec<String> = Vec::new();
    let mut i: usize = 0;
    proof {
        assert(path_views.skip(0) =~= path_views);
        assert(flags@.skip(0) =~= flags@);
        assert(r@.map_values(|s: String| s@) =~= Seq::<Seq<char>>::empty());
        assert(Seq::<Seq<char>>::empty() + spec_kept(path_views, flags@) =~= spec_kept(
            path_views,
            flags@,
        ));
    }
    while i < paths.len() && i < flags.len()
        invariant
            i <= paths@.len(),
            i <= flags@.len(),
            path_views == paths@.map_values(|s: String| s@),
            r@.map_values(|s: String| s@) + spec_kept(path_views.skip(i as int), flags@.skip(i as int))
                == spec_kept(path_views, flags@),
        decreases paths@.len() - i,
    {
        proof {
            assert(path_views.skip(i as int)[0] == path_views[i as int]);
            assert(flags@.skip(i as int)[0] == flags@[i as int]);
            assert(path_views.skip(i as int).drop_first() =~= path_views.skip(i as int + 1));
            assert(flags@.skip(i as int).drop_first() =~= flags@.skip(i as int + 1));
        }
        if flags[i] {
            r.push(paths[i].clone());
            proof {
                assert(r@.map_values(|s: String| s@) =~= r@.map_values(
                    |s: String| s@,
                ).drop_last().push(path_views[i as int]));
            }
        }
        i = i + 1;
    }
    proof {
        assert(spec_kept(path_views.skip(i as int), flags@.skip(i as int)) =~= Seq::<
            Seq<char>,
        >::empty());
        assert(r@.map_values(|s: String| s@) + Seq::<Seq<char>>::empty() =~= r@.map_values(
            |s: String| s@,
        ));
    }
    r
}

/// Where a retrieval stands.  The machine moves on events and emits one
/// action per step.
pub enum RetrievalState {
    /// Waiting for the local-disk check of the bundle's directory.
    CheckingLocal,
    /// The directory exists locally; waiting for the cache's answer.
    ConsultingCache,
    /// Local directory with no cache entry; waiting for the backfill store.
    Backfilling { paths: Vec<String> },
    /// Waiting for the store's answer about a candidate key.
    Detecting { probing_tar: bool },
    /// A key was detected; waiting for the output directory's creation.
    EnsuringDir { key: String, format: ArchiveFormat },
    /// Waiting for the object's bytes.
    Downloading { key: String, format: ArchiveFormat },
    /// Waiting for the planned writes' outcomes.
    AwaitingWrites { paths: Vec<String> },
    /// Waiting for the external tar.gz unpacking's outcome.
    AwaitingTar,
    /// Extraction finished; waiting for the cache store of its result.
    Caching { paths: Vec<String> },
    /// The retrieval ended.
    Done { outcome: RetrievalOutcome },
}

/// What the shell reports back after performing an action.
pub enum RetrievalEvent {
    /// Whether the bundle's local directory exists.
    LocalChecked { present: bool },
    /// The cache's answer: the value under the key, or a miss.
    CacheValue { value: Option<String> },
    /// The cache could not be consulted.
    CacheUnavailable,
    /// Whether the probed key exists in the object store.
    ProbeAnswer { exists: bool },
    /// The object's bytes arrived.
    DownloadOk { data: Vec<u8> },
    /// The download failed.
    DownloadFailed { message: String },
    /// Whether the output directory exists or was created.
    DirEnsured { ok: bool },
    /// Which planned writes succeeded, in plan order.
    WritesApplied { ok_flags: Vec<bool> },
    /// Whether the external tar.gz unpacking succeeded.
    TarFinished { ok: bool },
    /// Whether the cache store succeeded.
    CacheStored { ok: bool },
}

/// What the shell must do next.
pub enum RetrievalAction {
    /// Check whether the directory exists on local disk.
    CheckLocalDir { dir: String },
    /// Read the key from the key-value cache.
    GetCache { key: String },
    /// Store the value under the key with the time-to-live.
    SetCache { key: String, value: String, ttl_seconds: u64 },
    /// Ask the object store whether the key exists.
    ProbeStore { key: String },
    /// Download the object's bytes.
    Download { key: String },
    /// Create the directory, recursively, if it is absent.
    EnsureDir { dir: String },
    /// Perform the plan's directory creations and file writes in order,
    /// skipping entries that fail, and report each write's outcome.
    ApplyPlan { plan: Vec<FsWrite> },
    /// Materialize the archive bytes in a temporary file inside the
    /// directory, unpack them there with an external tar invocation, and
    /// delete the temporary file whatever the outcome.
    UnpackTarGz { dir: String, data: Vec<u8> },
    /// The retrieval ended; no further work.
    Finish,
}

/// How a retrieval ended.
pub enum RetrievalOutcome {
    /// The cache held a result; it is returned verbatim.
    CachedPayload { payload: String },
    /// A fresh result: the extracted paths, or the backfilled local
    /// directory.
    FreshPaths { paths: Vec<String> },
    /// Neither candidate key exists in the object store.
    NotFound,
    /// The retrieval failed.
    Failed { message: String },
}

/// The step failed: the machine is done with a failure outcome and asks
/// for no further work.
pub open spec fn step_failed(r: (RetrievalState, RetrievalAction)) -> bool {
    r.0 matches RetrievalState::Done { outcome: RetrievalOutcome::Failed { .. } }
        && r.1 is Finish
}

fn fail_step(message: &str) -> (r: (RetrievalState, RetrievalAction))
    ensures
        step_failed(r),
{
    (
        RetrievalState::Done {
            outcome: RetrievalOutcome::Failed { message: message.to_owned() },
        },
        RetrievalAction::Finish,
    )
}

/// Opens a retrieval for a bundle name.  A name unsafe to place in a
/// filesystem path fails at once; otherwise the local-disk check comes
/// first.
pub fn retrieval_begin(name: &str) -> (r: (RetrievalState, RetrievalAction))
    ensures
        spec_safe_bundle_name(name@) ==> r.0 is CheckingLocal && (r.1
            matches RetrievalAction::CheckLocalDir { dir } && dir@ == spec_dir_for(name@)),
        !spec_safe_bundle_name(name@) ==> step_failed(r),
{
    if !is_safe_bundle_name(name) {
        return fail_step("invalid bundle name");
    }
    (RetrievalState::CheckingLocal, RetrievalAction::CheckLocalDir { dir: dir_for(name) })
}

/// Advances a retrieval with the shell's answer to the pending action.
///
/// The policy, in order: a present local directory is served from the
/// cache, a cache miss backfilled with the directory path; an absent one
/// goes through detection (zip before tar.gz), download and extraction,
/// and the result is stored in the cache before it is returned.  Every
/// failure — an unreachable cache, a failed download, an unreadable
/// archive, a failed unpacking, a failed cache store — ends the retrieval
/// as failed, and an event that does not answer the pending action does
/// too.  A finished retrieval stays finished.
#[verifier::rlimit(60)]
pub fn retrieval_step(name: &str, s: RetrievalState, ev: RetrievalEvent) -> (r: (
    RetrievalState,
    RetrievalAction,
))
    ensures
        s is CheckingLocal ==> {
            &&& (ev matches RetrievalEvent::LocalChecked { present } ==> {
                &&& present ==> r.0 is ConsultingCache && (r.1
                    matches RetrievalAction::GetCache { key } && key@ == spec_cache_key(name@))
                &&& !present ==> (r.0 matches RetrievalState::Detecting { probing_tar }
                    && !probing_tar) && (r.1 matches RetrievalAction::ProbeStore { key } && key@
                    == name@ + ".zip"@)
            })
            &&& !(ev is LocalChecked) ==> step_failed(r)
        },
        s is ConsultingCache ==> {
            &&& (ev matches RetrievalEvent::CacheValue { value } ==> {
                &&& (value matches Option::Some(v) ==> (r.0 matches RetrievalState::Done {
                    outcome: RetrievalOutcome::CachedPayload { payload },
                } && payload@ == v@) && r.1 is Finish)
                &&& (value is None ==> (r.0 matches RetrievalState::Backfilling { paths }
                    && paths@.map_values(|p: String| p@) == seq![spec_dir_for(name@)]) && (r.1
                    matches RetrievalAction::SetCache { key, value: val, ttl_seconds } && key@
                    == spec_cache_key(name@) && val@ == spec_encode(seq![spec_dir_for(name@)])
                    && ttl_seconds == RESULT_TTL_SECONDS))
            })
            &&& !(ev is CacheValue) ==> step_failed(r)
        },
        s matches RetrievalState::Backfilling { paths } ==> {
            &&& (ev matches RetrievalEvent::CacheStored { ok } ==> {
                &&& ok ==> (r.0 matches RetrievalState::Done {
                    outcome: RetrievalOutcome::FreshPaths { paths: ps },
                } && ps == paths) && r.1 is Finish
                &&& !ok ==> step_failed(r)
            })
            &&& !(ev is CacheStored) ==> step_failed(r)
        },
        s matches RetrievalState::Detecting { probing_tar } ==> {
            &&& (ev matches RetrievalEvent::ProbeAnswer { exists } ==> {
                &&& (!probing_tar && exists) ==> (r.0 matches RetrievalState::EnsuringDir {
                    key,
                    format,
                } && key@ == name@ + ".zip"@ && format == ArchiveFormat::Zip) && (r.1
                    matches RetrievalAction::EnsureDir { dir } && dir@ == spec_dir_for(name@))
                &&& (!probing_tar && !exists) ==> (r.0 matches RetrievalState::Detecting {
                    probing_tar: pt,
                } && pt) && (r.1 matches RetrievalAction::ProbeStore { key } && key@ == name@
                    + ".tar.gz"@)
                &&& (probing_tar && exists) ==> (r.0 matches RetrievalState::EnsuringDir {
                    key,
                    format,
                } && key@ == name@ + ".tar.gz"@ && format == ArchiveFormat::TarGz) && (r.1
                    matches RetrievalAction::EnsureDir { dir } && dir@ == spec_dir_for(name@))
                &&& (probing_tar && !exists) ==> (r.0 matches RetrievalState::Done { outcome }
                    && outcome is NotFound) && r.1 is Finish
            })
            &&& !(ev is ProbeAnswer) ==> step_failed(r)
        },
        s matches RetrievalState::EnsuringDir { key, format } ==> {
            &&& (ev matches RetrievalEvent::DirEnsured { ok } ==> {
                &&& ok ==> (r.0 matches RetrievalState::Downloading { key: k, format: f } && k@
                    == key@ && f == format) && (r.1 matches RetrievalAction::Download { key: k2 }
                    && k2@ == key@)
                &&& !ok ==> step_failed(r)
            })
            &&& !(ev is DirEnsured) ==> step_failed(r)
        },
        s matches RetrievalState::Downloading { key, format } ==> {
            &&& (ev matches RetrievalEvent::DownloadOk { data } ==> {
                &&& format == ArchiveFormat::Zip ==> {
                    &&& zip_well_formed(data@) ==> (r.0
                        matches RetrievalState::AwaitingWrites { paths } && paths@.map_values(
                        |p: String| p@,
                    ) == spec_file_paths(
                        spec_plan(zip_entries_of(data@), spec_dir_for(name@)),
                    )) && (r.1 matches RetrievalAction::ApplyPlan { plan } && plan@.map_values(
                        |w: FsWrite| w.view_triple(),
                    ) == spec_plan(zip_entries_of(data@), spec_dir_for(name@)))
                    &&& !zip_well_formed(data@) ==> step_failed(r)
                }
                &&& format == ArchiveFormat::TarGz ==> r.0 is AwaitingTar && (r.1
                    matches RetrievalAction::UnpackTarGz { dir, data: d } && dir@ == spec_dir_for(
                    name@,
                ) && d@ == data@)
            })
            &&& (ev is DownloadFailed) ==> step_failed(r)
            &&& !(ev is DownloadOk || ev is DownloadFailed) ==> step_failed(r)
        },
        s matches RetrievalState::AwaitingWrites { paths } ==> {
            &&& (ev matches RetrievalEvent::WritesApplied { ok_flags } ==> (r.0
                matches RetrievalState::Caching { paths: kept } && kept@.map_values(
                |p: String| p@,
            ) == spec_kept(paths@.map_values(|p: String| p@), ok_flags@)) && (r.1
                matches RetrievalAction::SetCache { key, value, ttl_seconds } && key@
                == spec_cache_key(name@) && value@ == spec_encode(
                spec_kept(paths@.map_values(|p: String| p@), ok_flags@),
            ) && ttl_seconds == RESULT_TTL_SECONDS))
            &&& !(ev is WritesApplied) ==> step_failed(r)
        },
        s is AwaitingTar ==> {
            &&& (ev matches RetrievalEvent::TarFinished { ok } ==> {
                &&& ok ==> (r.0 matches RetrievalState::Caching { paths } && paths@.map_values(
                    |p: String| p@,
                ) == seq!["Extracted files successfully."@]) && (r.1
                    matches RetrievalAction::SetCache { key, value, ttl_seconds } && key@
                    == spec_cache_key(name@) && value@ == spec_encode(
                    seq!["Extracted files successfully."@],
                ) && ttl_seconds == RESULT_TTL_SECONDS)
                &&& !ok ==> step_failed(r)
            })
            &&& !(ev is TarFinished) ==> step_failed(r)
        },
        s matches RetrievalState::Caching { paths } ==> {
            &&& (ev matches RetrievalEvent::CacheStored { ok } ==> {
                &&& ok ==> (r.0 matches RetrievalState::Done {
                    outcome: RetrievalOutcome::FreshPaths { paths: ps },
                } && ps == paths) && r.1 is Finish
                &&& !ok ==> step_failed(r)
            })
            &&& !(ev is CacheStored) ==> step_failed(r)
        },
        s matches RetrievalState::Done { outcome } ==> (r.0 matches RetrievalState::Done {
            outcome: o2,
        } && o2 == outcome) && r.1 is Finish,
{
    match s {
        RetrievalState::CheckingLocal => {
            match ev {
                RetrievalEvent::LocalChecked { present } => {
                    if present {
                        (
                            RetrievalState::ConsultingCache,
                            RetrievalAction::GetCache { key: cache_key_for(name) },
                        )
                    } else {
                        (
                            RetrievalState::Detecting { probing_tar: false },
                            RetrievalAction::ProbeStore {
                                key: storage_key(name, ArchiveFormat::Zip),
                            },
                        )
                    }
                },
                _ => fail_step("unexpected event during local check"),
            }
        },
        RetrievalState::ConsultingCache => {
            match ev {
                RetrievalEvent::CacheValue { value } => {
                    match value {
                        Option::Some(v) => (
                            RetrievalState::Done {
                                outcome: RetrievalOutcome::CachedPayload { payload: v },
                            },
                            RetrievalAction::Finish,
                        ),
                        Option::None => {
                            let dir = dir_for(name);
                            let mut paths: Vec<String> = Vec::new();
                            paths.push(dir);
                            proof {
                                assert(paths@.map_values(|p: String| p@) =~= seq![
                                    spec_dir_for(name@),
                                ]);
                            }
                            let payload = encode_paths(&paths);
                            (
                                RetrievalState::Backfilling { paths },
                                RetrievalAction::SetCache {
                                    key: cache_key_for(name),
                                    value: payload,
                                    ttl_seconds: RESULT_TTL_SECONDS,
                                },
                            )
                        },
                    }
                },
                _ => fail_step("cache unavailable"),
            }
        },
        RetrievalState::Backfilling { paths } => {
            match ev {
                RetrievalEvent::CacheStored { ok } => {
                    if ok {
                        (
                            RetrievalState::Done { outcome: RetrievalOutcome::FreshPaths { paths } },
                            RetrievalAction::Finish,
                        )
                    } else {
                        fail_step("failed to store the backfilled cache entry")
                    }
                },
                _ => fail_step("unexpected event during backfill"),
            }
        },
        RetrievalState::Detecting { probing_tar } => {
            match ev {
                RetrievalEvent::ProbeAnswer { exists } => {
                    if !probing_tar {
                        if exists {
                            (
                                RetrievalState::EnsuringDir {
                                    key: storage_key(name, ArchiveFormat::Zip),
                                    format: ArchiveFormat::Zip,
                                },
                                RetrievalAction::EnsureDir { dir: dir_for(name) },
                            )
                        } else {
                            (
                                RetrievalState::Detecting { probing_tar: true },
                                RetrievalAction::ProbeStore {
                                    key: storage_key(name, ArchiveFormat::TarGz),
                                },
                            )
                        }
                    } else {
                        if exists {
                            (
                                RetrievalState::EnsuringDir {
                                    key: storage_key(name, ArchiveFormat::TarGz),
                                    format: ArchiveFormat::TarGz,
                                },
                                RetrievalAction::EnsureDir { dir: dir_for(name) },
                            )
                        } else {
                            (
                                RetrievalState::Done { outcome: RetrievalOutcome::NotFound },
                                RetrievalAction::Finish,
                            )
                        }
                    }
                },
                _ => fail_step("unexpected event during detection"),
            }
        },
        RetrievalState::EnsuringDir { key, format } => {
            match ev {
                RetrievalEvent::DirEnsured { ok } => {
                    if ok {
                        let key2 = key.clone();
                        (
                            RetrievalState::Downloading { key, format },
                            RetrievalAction::Download { key: key2 },
                        )
                    } else {
                        fail_step("failed to create the output directory")
                    }
                },
                _ => fail_step("unexpected event while preparing the output directory"),
            }
        },
        RetrievalState::Downloading { key, format } => {
            match ev {
                RetrievalEvent::DownloadOk { data } => {
                    match format {
                        ArchiveFormat::Zip => {
                            let dir = dir_for(name);
                            match plan_from_archive_bytes(&data, dir.as_str()) {
                                Result::Ok(plan) => {
                                    let paths = crate::extract::planned_file_paths(&plan);
                                    (
                                        RetrievalState::AwaitingWrites { paths },
                                        RetrievalAction::ApplyPlan { plan },
                                    )
                                },
                                Result::Err(_) => fail_step("failed to read the zip archive"),
                            }
                        },
                        ArchiveFormat::TarGz => (
                            RetrievalState::AwaitingTar,
                            RetrievalAction::UnpackTarGz { dir: dir_for(name), data },
                        ),
                    }
                },
                RetrievalEvent::DownloadFailed { message } => fail_step(message.as_str()),
                _ => fail_step("unexpected event during download"),
            }
        },
        RetrievalState::AwaitingWrites { paths } => {
            match ev {
                RetrievalEvent::WritesApplied { ok_flags } => {
                    let kept = kept_paths(&paths, &ok_flags);
                    let payload = encode_paths(&kept);
                    (
                        RetrievalState::Caching { paths: kept },
                        RetrievalAction::SetCache {
                            key: cache_key_for(name),
                            value: payload,
                            ttl_seconds: RESULT_TTL_SECONDS,
                        },
                    )
                },
                _ => fail_step("unexpected event while writing entries"),
            }
        },
        RetrievalState::AwaitingTar => {
            match ev {
                RetrievalEvent::TarFinished { ok } => {
                    if ok {
                        let mut paths: Vec<String> = Vec::new();
                        paths.push(tar_marker());
                        proof {
                            assert(paths@.map_values(|p: String| p@) =~= seq![
                                "Extracted files successfully."@,
                            ]);
                        }
                        let payload = encode_paths(&paths);
                        (
                            RetrievalState::Caching { paths },
                            RetrievalAction::SetCache {
                                key: cache_key_for(name),
                                value: payload,
                                ttl_seconds: RESULT_TTL_SECONDS,
                            },
                        )
                    } else {
                        fail_step("failed to unpack the tar.gz archive")
                    }
                },
                _ => fail_step("unexpected event while unpacking"),
            }
        },
        RetrievalState::Caching { paths } => {
            match ev {
                RetrievalEvent::CacheStored { ok } => {
                    if ok {
                        (
                            RetrievalState::Done { outcome: RetrievalOutcome::FreshPaths { paths } },
                            RetrievalAction::Finish,
                        )
                    } else {
                        fail_step("failed to store the extraction result in the cache")
                    }
                },
                _ => fail_step("unexpected event while caching"),
            }
        },
        RetrievalState::Done { outcome } => (
            RetrievalState::Done { outcome },
            RetrievalAction::Finish,
        ),
    }
}

/// How a whole retrieval ends, at the specification level, given the
/// environment's answers: whether the local directory exists, what the
/// cache holds, which candidate keys exist in the store, the downloaded
/// bytes, whether the output directory could be made, which writes
/// succeed, whether the tar unpacking succeeds, and whether the cache
/// store succeeds.
pub enum RunOutcome {
    CachedPayload { payload: Seq<char> },
    FreshPaths { paths: Seq<Seq<char>> },
    NotFound,
    Failed,
}

/// The outcome the retrieval machine reaches against a well-behaved shell
/// that answers every action from this environment.  It composes the
/// per-step contracts of `retrieval_begin` and `retrieval_step`.
pub open spec fn spec_retrieval(
    name: Seq<char>,
    local_present: bool,
    cached: Option<Seq<char>>,
    zip_exists: bool,
    tar_exists: bool,
    download_ok: bool,
    data: Seq<u8>,
    dir_ok: bool,
    write_flags: Seq<bool>,
    tar_ok: bool,
    store_ok: bool,
) -> RunOutcome {
    if !spec_safe_bundle_name(name) {
        RunOutcome::Failed
    } else if local_present {
        match cached {
            Option::Some(v) => RunOutcome::CachedPayload { payload: v },
            Option::None => if store_ok {
                RunOutcome::FreshPaths { paths: seq![spec_dir_for(name)] }
            } else {
                RunOutcome::Failed
            },
        }
    } else {
        match spec_detect(name, zip_exists, tar_exists) {
            Option::None => RunOutcome::NotFound,
            Option::Some((key, format)) => if !dir_ok {
                RunOutcome::Failed
            } else if !download_ok {
                RunOutcome::Failed
            } else {
                match format {
                    ArchiveFormat::Zip => if !zip_well_formed(data) {
                        RunOutcome::Failed
                    } else if store_ok {
                        RunOutcome::FreshPaths {
                            paths: spec_kept(
                                spec_file_paths(spec_plan(zip_entries_of(data), spec_dir_for(name))),
                                write_flags,
                            ),
                        }
                    } else {
                        RunOutcome::Failed
                    },
                    ArchiveFormat::TarGz => if !tar_ok {
                        RunOutcome::Failed
                    } else if store_ok {
                        RunOutcome::FreshPaths { paths: seq!["Extracted files successfully."@] }
                    } else {
                        RunOutcome::Failed
                    },
                }
            },
        }
    }
}

/// Every path kept after the writes names one of the planned file paths.
proof fn lemma_kept_members(paths: Seq<Seq<char>>, flags: Seq<bool>)
    ensures
        forall|x: Seq<char>| #[trigger] spec_kept(paths, flags).contains(x) ==> paths.contains(x),
    decreases paths.len(),
{
    if paths.len() > 0 && flags.len() > 0 {
        lemma_kept_members(paths.drop_first(), flags.drop_first());
        assert forall|x: Seq<char>| #[trigger]
            spec_kept(paths, flags).contains(x) implies paths.contains(x) by {
            let kept = spec_kept(paths, flags);
            let k = choose|k: int| 0 <= k < kept.len() && kept[k] == x;
            let rest = spec_kept(paths.drop_first(), flags.drop_first());
            if flags[0] && k == 0 {
                assert(paths[0] == x);
            } else {
                if flags[0] {
                    assert(rest[k - 1] == x);
                } else {
                    assert(rest[k] == x);
                }
                assert(rest.contains(x));
                let j = choose|j: int|
                    0 <= j < paths.drop_first().len() && paths.drop_first()[j] == x;
                assert(paths[j + 1] == x);
            }
        }
    }
}

/// Containment of retrieval results.  Whatever archive bytes are stored
/// under a bundle's key and however the writes fare, every path a zip
/// retrieval reports — and caches — lies inside the bundle's own
/// directory.
pub proof fn lemma_retrieval_result_confined(name: Seq<char>, data: Seq<u8>, flags: Seq<bool>)
    ensures
        forall|x: Seq<char>|
            #[trigger] spec_kept(
                spec_file_paths(spec_plan(zip_entries_of(data), spec_dir_for(name))),
                flags,
            ).contains(x) ==> confined_to(spec_dir_for(name), x),
{
    let dir = spec_dir_for(name);
    let plan = spec_plan(zip_entries_of(data), dir);
    lemma_plan_confined(zip_entries_of(data), dir);
    lemma_file_paths_members(plan);
    lemma_kept_members(spec_file_paths(plan), flags);
}

/// Idempotence of retrieval.  A first retrieval of a stored, uncached
/// bundle with no local directory extracts and returns a fresh path list.
/// Once its result payload is cached and the local directory exists, a
/// second retrieval returns that cached payload — whatever the store's
/// probes, bytes and write outcomes would now say, so extraction is never
/// re-invoked — and the payload decodes to exactly the first run's paths.
pub proof fn lemma_retrieval_idempotent(
    name: Seq<char>,
    zip_exists: bool,
    tar_exists: bool,
    data: Seq<u8>,
    write_flags: Seq<bool>,
)
    requires
        spec_safe_bundle_name(name),
        zip_exists || tar_exists,
        zip_exists ==> zip_well_formed(data),
    ensures
        ({
            let first = spec_retrieval(
                name,
                false,
                Option::None,
                zip_exists,
                tar_exists,
                true,
                data,
                true,
                write_flags,
                true,
                true,
            );
            &&& first is FreshPaths
            &&& forall|ze: bool, te: bool, dl: bool, d2: Seq<u8>, dk: bool, wf: Seq<bool>,
                tk: bool, sk: bool|
                spec_retrieval(
                    name,
                    true,
                    Option::Some(spec_encode(first->FreshPaths_paths)),
                    ze,
                    te,
                    dl,
                    d2,
                    dk,
                    wf,
                    tk,
                    sk,
                ) == (RunOutcome::CachedPayload {
                    payload: spec_encode(first->FreshPaths_paths),
                })
            &&& spec_decode(spec_encode(first->FreshPaths_paths)) == Option::Some(
                first->FreshPaths_paths,
            )
        }),
{
    let first = spec_retrieval(
        name,
        false,
        Option::None,
        zip_exists,
        tar_exists,
        true,
        data,
        true,
        write_flags,
        true,
        true,
    );
    lemma_decode_encode(first->FreshPaths_paths);
}

} // verus!
