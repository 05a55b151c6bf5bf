use bundle_vault::archive::{
    detect_begin, detect_on_probe, format_for_key, ArchiveFormat, DetectState,
};
use bundle_vault::codec::decode_paths;
use bundle_vault::file_types::FileValidator;
use bundle_vault::health::{
    health_begin, health_step, HealthAction, HealthCheckType, HealthEvent, HealthState,
};
use bundle_vault::retrieve::{
    retrieval_begin, retrieval_step, RetrievalAction, RetrievalEvent, RetrievalOutcome,
    RetrievalState,
};
use bundle_vault::validate::validate_upload;
use std::collections::{HashMap, HashSet};
use std::io::Write;
use zip::write::SimpleFileOptions;

/// An in-memory stand-in for the object store, the cache and the local
/// filesystem, with a record of what the machine asked for.
struct SimEnv {
    store: HashMap<String, Vec<u8>>,
    cache: HashMap<String, String>,
    local_dirs: HashSet<String>,
    set_calls: Vec<(String, String, u64)>,
    downloads: usize,
    plans_applied: usize,
    tar_runs: usize,
}

impl SimEnv {
    fn new() -> SimEnv {
        SimEnv {
            store: HashMap::new(),
            cache: HashMap::new(),
            local_dirs: HashSet::new(),
            set_calls: Vec::new(),
            downloads: 0,
            plans_applied: 0,
            tar_runs: 0,
        }
    }

    fn run_retrieval(&mut self, name: &str) -> RetrievalOutcome {
        let (mut state, mut action) = retrieval_begin(name);
        for _ in 0..64 {
            let event = match action {
                RetrievalAction::Finish => {
                    return match state {
                        RetrievalState::Done { outcome } => outcome,
                        _ => panic!("finish without a final state"),
                    };
                }
                RetrievalAction::CheckLocalDir { dir } => RetrievalEvent::LocalChecked {
                    present: self.local_dirs.contains(&dir),
                },
                RetrievalAction::GetCache { key } => RetrievalEvent::CacheValue {
                    value: self.cache.get(&key).cloned(),
                },
                RetrievalAction::SetCache { key, value, ttl_seconds } => {
                    self.set_calls.push((key.clone(), value.clone(), ttl_seconds));
                    self.cache.insert(key, value);
                    RetrievalEvent::CacheStored { ok: true }
                }
                RetrievalAction::ProbeStore { key } => RetrievalEvent::ProbeAnswer {
                    exists: self.store.contains_key(&key),
                },
                RetrievalAction::Download { key } => {
                    self.downloads += 1;
                    match self.store.get(&key) {
                        Some(data) => RetrievalEvent::DownloadOk { data: data.clone() },
                        None => RetrievalEvent::DownloadFailed {
                            message: "no such object".to_string(),
                        },
                    }
                }
                RetrievalAction::EnsureDir { dir } => {
                    self.local_dirs.insert(dir);
                    RetrievalEvent::DirEnsured { ok: true }
                }
                RetrievalAction::ApplyPlan { plan } => {
                    self.plans_applied += 1;
                    RetrievalEvent::WritesApplied { ok_flags: vec![true; plan.len()] }
                }
                RetrievalAction::UnpackTarGz { dir: _, data: _ } => {
                    self.tar_runs += 1;
                    RetrievalEvent::TarFinished { ok: true }
                }
            };
            let next = retrieval_step(name, state, event);
            state = next.0;
            action = next.1;
        }
        panic!("retrieval did not terminate");
    }
}

fn build_zip(entries: &[(&str, Option<&[u8]>)]) -> Vec<u8> {
    let mut w = zip::ZipWriter::new(std::io::Cursor::new(Vec::new()));
    let opts = SimpleFileOptions::default().compression_method(zip::CompressionMethod::Stored);
    for (name, data) in entries {
        match data {
            Some(bytes) => {
                w.start_file(*name, opts).unwrap();
                w.write_all(bytes).unwrap();
            }
            None => {
                w.add_directory(*name, opts).unwrap();
            }
        }
    }
    w.finish().unwrap().into_inner()
}

#[test]
fn detection_prefers_zip() {
    // both candidates present: the zip variant wins deterministically
    let s = detect_begin("foo");
    let key = match &s {
        DetectState::ProbingZip { key } => key.clone(),
        _ => panic!("detection must probe the zip candidate first"),
    };
    assert_eq!(key, "foo.zip");
    match detect_on_probe("foo", s, true) {
        DetectState::Found { key, format } => {
            assert_eq!(key, "foo.zip");
            assert_eq!(format, ArchiveFormat::Zip);
        }
        _ => panic!("zip hit must resolve the detection"),
    }
}

#[test]
fn detection_falls_back_to_tar_gz() {
    let s = detect_begin("foo");
    let s = detect_on_probe("foo", s, false);
    match &s {
        DetectState::ProbingTarGz { key } => assert_eq!(key, "foo.tar.gz"),
        _ => panic!("zip miss must probe the tar.gz candidate"),
    }
    match detect_on_probe("foo", s, true) {
        DetectState::Found { key, format } => {
            assert_eq!(key, "foo.tar.gz");
            assert_eq!(format, ArchiveFormat::TarGz);
        }
        _ => panic!("tar.gz hit must resolve the detection"),
    }
}

#[test]
fn format_read_off_key_suffix() {
    assert_eq!(format_for_key("foo.zip"), Some(ArchiveFormat::Zip));
    assert_eq!(format_for_key("foo.tar.gz"), Some(ArchiveFormat::TarGz));
    assert_eq!(format_for_key("foo.gz"), None);
    assert_eq!(format_for_key("foo"), None);
    assert_eq!(format_for_key(".zip"), Some(ArchiveFormat::Zip));
}

#[test]
fn detection_reports_absence() {
    let s = detect_begin("foo");
    let s = detect_on_probe("foo", s, false);
    assert!(matches!(detect_on_probe("foo", s, false), DetectState::Absent));
}

#[test]
fn retrieval_prefers_zip_when_both_stored() {
    let mut env = SimEnv::new();
    env.store.insert("foo.zip".to_string(), build_zip(&[("z.txt", Some(b"zip"))]));
    env.store.insert("foo.tar.gz".to_string(), vec![0x1f, 0x8b]);
    let outcome = env.run_retrieval("foo");
    match outcome {
        RetrievalOutcome::FreshPaths { paths } => {
            assert_eq!(paths, vec!["./competitions/foo/z.txt".to_string()]);
        }
        _ => panic!("expected a fresh extraction result"),
    }
    assert_eq!(env.tar_runs, 0);
}

#[test]
fn retrieval_missing_bundle_not_found() {
    let mut env = SimEnv::new();
    assert!(matches!(env.run_retrieval("ghost"), RetrievalOutcome::NotFound));
}

#[test]
fn retrieval_rejects_traversal_name() {
    let mut env = SimEnv::new();
    env.store.insert("../evil.zip".to_string(), build_zip(&[("x", Some(b"y"))]));
    assert!(matches!(env.run_retrieval("../evil"), RetrievalOutcome::Failed { .. }));
    assert!(matches!(env.run_retrieval(""), RetrievalOutcome::Failed { .. }));
    assert_eq!(env.downloads, 0);
}

#[test]
fn retrieval_tar_gz_yields_marker() {
    let mut env = SimEnv::new();
    env.store.insert("only.tar.gz".to_string(), vec![0x1f, 0x8b, 8, 0]);
    match env.run_retrieval("only") {
        RetrievalOutcome::FreshPaths { paths } => {
            assert_eq!(paths, vec!["Extracted files successfully.".to_string()]);
        }
        _ => panic!("expected the tar.gz marker result"),
    }
    assert_eq!(env.tar_runs, 1);
}

#[test]
fn retrieval_idempotent_second_call_hits_cache() {
    let mut env = SimEnv::new();
    let data = build_zip(&[("a/b.txt", Some(b"hello")), ("c/", None)]);
    env.store.insert("bundle.zip".to_string(), data);

    let first = env.run_retrieval("bundle");
    let first_paths = match first {
        RetrievalOutcome::FreshPaths { paths } => paths,
        _ => panic!("first retrieval must extract"),
    };
    assert_eq!(first_paths, vec!["./competitions/bundle/a/b.txt".to_string()]);
    assert_eq!(env.downloads, 1);
    assert_eq!(env.plans_applied, 1);
    assert_eq!(env.set_calls.len(), 1);
    assert_eq!(env.set_calls[0].0, "file_cache:bundle");
    assert_eq!(env.set_calls[0].2, 3600);

    // the extraction left the local directory in place and the cache
    // populated: the second call returns the cached payload verbatim and
    // re-invokes no extraction
    let second = env.run_retrieval("bundle");
    match second {
        RetrievalOutcome::CachedPayload { payload } => {
            assert_eq!(decode_paths(&payload).unwrap(), first_paths);
        }
        _ => panic!("second retrieval must come from the cache"),
    }
    assert_eq!(env.downloads, 1);
    assert_eq!(env.plans_applied, 1);
}

#[test]
fn retrieval_backfills_cache_for_local_directory() {
    let mut env = SimEnv::new();
    env.local_dirs.insert("./competitions/present".to_string());
    match env.run_retrieval("present") {
        RetrievalOutcome::FreshPaths { paths } => {
            assert_eq!(paths, vec!["./competitions/present".to_string()]);
        }
        _ => panic!("local-present with a cache miss must backfill"),
    }
    assert_eq!(env.set_calls.len(), 1);
    assert_eq!(env.set_calls[0].0, "file_cache:present");
    assert_eq!(env.set_calls[0].2, 3600);
    assert_eq!(env.downloads, 0);
}

#[test]
fn upload_then_retrieve_end_to_end() {
    // build a real zip archive padded to exactly 10240 bytes
    let probe = build_zip(&[("demo/content.txt", Some(b""))]);
    let overhead = probe.len();
    assert!(overhead < 10240);
    let body = vec![0x61u8; 10240 - overhead];
    let data = build_zip(&[("demo/content.txt", Some(&body))]);
    assert_eq!(data.len(), 10240);
    assert_eq!(&data[0..4], &[0x50, 0x4b, 0x03, 0x04]);

    // upload: validation succeeds and reports the exact byte size
    let validator = FileValidator::new();
    let chunks = vec![data.clone()];
    let accepted = validate_upload(&validator, Some("demo.zip"), "application/zip", &chunks)
        .unwrap();
    assert_eq!(accepted.len(), 10240);

    // the store now holds the object under the original filename
    let mut env = SimEnv::new();
    env.store.insert("demo.zip".to_string(), accepted);

    // first retrieval: cache miss, detection finds demo.zip, extraction
    // yields a non-empty list, and the cache is populated with TTL 3600
    let first = env.run_retrieval("demo");
    let paths = match first {
        RetrievalOutcome::FreshPaths { paths } => paths,
        _ => panic!("first retrieval must extract"),
    };
    assert_eq!(paths, vec!["./competitions/demo/demo/content.txt".to_string()]);
    assert_eq!(env.set_calls.len(), 1);
    assert_eq!(env.set_calls[0].0, "file_cache:demo");
    assert_eq!(env.set_calls[0].2, 3600);

    // second retrieval: the identical list, straight from the cache
    match env.run_retrieval("demo") {
        RetrievalOutcome::CachedPayload { payload } => {
            assert_eq!(decode_paths(&payload).unwrap(), paths);
        }
        _ => panic!("second retrieval must come from the cache"),
    }
    assert_eq!(env.downloads, 1);
}

#[test]
fn retrieval_mismatched_event_fails() {
    let (state, _) = retrieval_begin("bundle");
    let next = retrieval_step("bundle", state, RetrievalEvent::TarFinished { ok: true });
    assert!(matches!(
        next.0,
        RetrievalState::Done { outcome: RetrievalOutcome::Failed { .. } }
    ));
    assert!(matches!(next.1, RetrievalAction::Finish));
}

#[test]
fn retrieval_cache_store_failure_is_terminal() {
    // the cache is load-bearing on the retrieval path: a failed store
    // after a successful extraction fails the whole retrieval
    let state = RetrievalState::Caching { paths: vec!["p".to_string()] };
    let next = retrieval_step("bundle", state, RetrievalEvent::CacheStored { ok: false });
    assert!(matches!(
        next.0,
        RetrievalState::Done { outcome: RetrievalOutcome::Failed { .. } }
    ));
}

fn run_health(
    scope: HealthCheckType,
    cached: Option<&str>,
    probe_results: &[Result<(), &str>],
) -> (u16, String, Vec<(String, String, u64)>) {
    let mut set_calls: Vec<(String, String, u64)> = Vec::new();
    let (mut state, mut action) = health_begin();
    let mut probe_idx = 0;
    for _ in 0..16 {
        let event = match action {
            HealthAction::Finish => {
                return match state {
                    HealthState::Done { code, message } => (code, message, set_calls),
                    _ => panic!("finish without a final state"),
                };
            }
            HealthAction::GetCache { key } => {
                assert_eq!(key, "health_check_status");
                HealthEvent::CacheValue { value: cached.map(|s| s.to_string()) }
            }
            HealthAction::Probe { target: _ } => {
                let r = probe_results[probe_idx];
                probe_idx += 1;
                match r {
                    Ok(()) => HealthEvent::ProbeDone { ok: true, error: String::new() },
                    Err(e) => HealthEvent::ProbeDone { ok: false, error: e.to_string() },
                }
            }
            HealthAction::SetCache { key, value, ttl_seconds } => {
                set_calls.push((key, value, ttl_seconds));
                HealthEvent::CacheStored { ok: true }
            }
        };
        let next = health_step(scope, state, event);
        state = next.0;
        action = next.1;
    }
    panic!("health check did not terminate");
}

#[test]
fn health_cache_hit_returned_verbatim() {
    let (code, message, set_calls) =
        run_health(HealthCheckType::All, Some("All services are healthy"), &[]);
    assert_eq!(code, 200);
    assert_eq!(message, "All services are healthy");
    assert!(set_calls.is_empty());
}

#[test]
fn health_all_success_cached_with_short_ttl() {
    let (code, message, set_calls) =
        run_health(HealthCheckType::All, None, &[Ok(()), Ok(()), Ok(())]);
    assert_eq!(code, 200);
    assert_eq!(message, "All services are healthy");
    assert_eq!(set_calls.len(), 1);
    assert_eq!(set_calls[0].0, "health_check_status");
    assert_eq!(set_calls[0].1, "All services are healthy");
    assert_eq!(set_calls[0].2, 60);
}

#[test]
fn health_first_failure_short_circuits_uncached() {
    // the relational probe fails: the cache probe never runs and nothing
    // is stored
    let (code, message, set_calls) =
        run_health(HealthCheckType::All, None, &[Ok(()), Err("connection refused")]);
    assert_eq!(code, 500);
    assert_eq!(message, "PostgreSQL Health Check Failed: connection refused");
    assert!(set_calls.is_empty());
}

#[test]
fn health_single_scope_probes_once() {
    let (code, message, set_calls) = run_health(HealthCheckType::Redis, None, &[Ok(())]);
    assert_eq!(code, 200);
    assert_eq!(message, "Redis is healthy");
    assert_eq!(set_calls.len(), 1);
    assert_eq!(set_calls[0].1, "Redis is healthy");
}

#[test]
fn health_s3_failure_named() {
    let (code, message, set_calls) = run_health(HealthCheckType::S3, None, &[Err("timeout")]);
    assert_eq!(code, 500);
    assert_eq!(message, "S3 Health Check Failed: timeout");
    assert!(set_calls.is_empty());
}

#[test]
fn health_success_messages() {
    assert_eq!(HealthCheckType::All.get_success_message(), "All services are healthy");
    assert_eq!(HealthCheckType::S3.get_success_message(), "S3 is healthy");
    assert_eq!(HealthCheckType::Postgres.get_success_message(), "PostgreSQL is healthy");
    assert_eq!(HealthCheckType::Redis.get_success_message(), "Redis is healthy");
}
