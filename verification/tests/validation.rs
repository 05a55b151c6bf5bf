use bundle_vault::errors::ValidationError;
use bundle_vault::file_types::{FileType, FileValidator};
use bundle_vault::text::{eq_ignore_case, resolved_ext};
use bundle_vault::validate::{
    begin_validation, finish_validation, push_chunk, validate_chunks, validate_upload,
};

fn png_type() -> FileType {
    FileType::new(
        "PNG",
        vec!["png"],
        vec!["image/png"],
        vec![vec![0x89, 0x50, 0x4e, 0x47, 0x0d, 0x0a, 0x1a, 0x0a]],
        10 * 1024 * 1024,
    )
}

fn zip_type_small() -> FileType {
    FileType::new(
        "ZIP",
        vec!["zip"],
        vec!["application/zip"],
        vec![vec![0x50, 0x4b, 0x03, 0x04]],
        16,
    )
}

fn png_payload() -> Vec<u8> {
    vec![0x89, 0x50, 0x4e, 0x47, 0x0d, 0x0a, 0x1a, 0x0a, 0x01]
}

#[test]
fn extension_case_insensitive_accepted() {
    let ft = png_type();
    assert!(ft.validate_extension("IMG.PNG"));
    assert!(ft.validate_extension("img.png"));
    assert!(ft.validate_extension("a.b.PnG"));
}

#[test]
fn extension_trailing_suffix_rejected() {
    let ft = png_type();
    assert!(!ft.validate_extension("img.png.bak"));
    assert!(!ft.validate_extension("img"));
    // a dotless filename's whole name is its extension token
    assert!(ft.validate_extension("png"));
    assert!(!ft.validate_extension("img.png."));
}

#[test]
fn wrong_extension_fails_whole_validation() {
    let ft = png_type();
    let chunks = vec![png_payload()];
    let r = validate_chunks(&ft, Some("img.png.bak"), "image/png", &chunks);
    assert_eq!(r.unwrap_err(), ValidationError::UnsupportedExtension);
}

#[test]
fn missing_filename_rejected() {
    let ft = png_type();
    let chunks = vec![png_payload()];
    let r = validate_chunks(&ft, None, "image/png", &chunks);
    assert_eq!(r.unwrap_err(), ValidationError::NoFilename);
}

#[test]
fn wrong_content_type_rejected() {
    let ft = png_type();
    let chunks = vec![png_payload()];
    let r = validate_chunks(&ft, Some("img.png"), "image/jpeg", &chunks);
    assert_eq!(r.unwrap_err(), ValidationError::UnsupportedContentType);
}

#[test]
fn content_type_case_insensitive() {
    let ft = png_type();
    let chunks = vec![png_payload()];
    let r = validate_chunks(&ft, Some("img.png"), "IMAGE/PNG", &chunks);
    assert!(r.is_ok());
}

#[test]
fn oversized_stream_rejected_mid_stream() {
    let ft = zip_type_small();
    // first chunk passes the magic check; the second crosses the 16-byte
    // bound and must be rejected before it is buffered
    let chunk1 = vec![0x50, 0x4b, 0x03, 0x04, 0, 0, 0, 0];
    let chunk2 = vec![0u8; 9];
    let chunk3 = vec![0u8; 100];

    let mut st = begin_validation(&ft, Some("a.zip"), "application/zip").unwrap();
    assert!(push_chunk(&mut st, &ft, &chunk1).is_ok());
    let r = push_chunk(&mut st, &ft, &chunk2);
    assert_eq!(r.unwrap_err(), ValidationError::PayloadTooLarge);
    // the state was left unchanged: a chunk that fits is still accepted
    let ok = push_chunk(&mut st, &ft, &vec![0u8; 8]);
    assert!(ok.is_ok());
    // and a later oversized chunk is rejected again
    let mut st2 = begin_validation(&ft, Some("a.zip"), "application/zip").unwrap();
    assert_eq!(
        push_chunk(&mut st2, &ft, &chunk3).unwrap_err(),
        ValidationError::PayloadTooLarge
    );
}

#[test]
fn oversized_whole_stream_fails() {
    let ft = zip_type_small();
    let chunks = vec![vec![0x50, 0x4b, 0x03, 0x04, 0, 0, 0, 0], vec![0u8; 9]];
    let r = validate_chunks(&ft, Some("a.zip"), "application/zip", &chunks);
    assert_eq!(r.unwrap_err(), ValidationError::PayloadTooLarge);
}

#[test]
fn bad_signature_rejected_even_with_matching_metadata() {
    let ft = png_type();
    let chunks = vec![vec![0x00, 0x11, 0x22, 0x33, 0x44, 0x55, 0x66, 0x77, 0x88]];
    let r = validate_chunks(&ft, Some("img.png"), "image/png", &chunks);
    assert_eq!(r.unwrap_err(), ValidationError::BadSignature);
}

#[test]
fn empty_magic_list_accepts_any_payload() {
    let ft = FileType::new("RAW", vec!["raw"], vec!["application/octet-stream"], vec![], 100);
    let chunks = vec![vec![1, 2, 3]];
    let r = validate_chunks(&ft, Some("x.raw"), "application/octet-stream", &chunks);
    assert_eq!(r.unwrap(), vec![1, 2, 3]);
}

#[test]
fn empty_stream_accepted_without_magic_check() {
    // no chunk ever arrives: the signature check never runs
    let ft = png_type();
    let r = validate_chunks(&ft, Some("img.png"), "image/png", &vec![]);
    assert_eq!(r.unwrap(), Vec::<u8>::new());
}

#[test]
fn size_bound_is_inclusive() {
    let ft = zip_type_small();
    let mut exact = vec![0x50, 0x4b, 0x03, 0x04];
    exact.extend_from_slice(&[0u8; 12]);
    assert_eq!(exact.len(), 16);
    let r = validate_chunks(&ft, Some("a.zip"), "application/zip", &vec![exact.clone()]);
    assert_eq!(r.unwrap(), exact);
    let mut over = exact;
    over.push(0);
    let r2 = validate_chunks(&ft, Some("a.zip"), "application/zip", &vec![over]);
    assert_eq!(r2.unwrap_err(), ValidationError::PayloadTooLarge);
}

#[test]
fn short_first_chunk_fails_signature() {
    // the signature is judged on the first chunk alone: a first chunk
    // shorter than every magic number cannot match one
    let ft = png_type();
    let chunks = vec![vec![0x89, 0x50], vec![0x4e, 0x47, 0x0d, 0x0a, 0x1a, 0x0a]];
    let r = validate_chunks(&ft, Some("img.png"), "image/png", &chunks);
    assert_eq!(r.unwrap_err(), ValidationError::BadSignature);
}

#[test]
fn valid_stream_assembled_in_order() {
    let ft = png_type();
    let chunks = vec![
        vec![0x89, 0x50, 0x4e, 0x47, 0x0d, 0x0a, 0x1a, 0x0a],
        vec![10, 11],
        vec![],
        vec![12],
    ];
    let r = validate_chunks(&ft, Some("img.png"), "image/png", &chunks).unwrap();
    assert_eq!(
        r,
        vec![0x89, 0x50, 0x4e, 0x47, 0x0d, 0x0a, 0x1a, 0x0a, 10, 11, 12]
    );
}

#[test]
fn finish_returns_buffered_bytes() {
    let ft = png_type();
    let mut st = begin_validation(&ft, Some("img.png"), "image/png").unwrap();
    push_chunk(&mut st, &ft, &png_payload()).unwrap();
    assert_eq!(finish_validation(st), png_payload());
}

#[test]
fn default_registry_holds_three_types() {
    let v = FileValidator::new();
    assert!(v.find_file_type_by_extension("zip").is_some());
    assert!(v.find_file_type_by_extension("png").is_some());
    assert!(v.find_file_type_by_extension("jpg").is_some());
    assert!(v.find_file_type_by_extension("jpeg").is_some());
    assert!(v.find_file_type_by_extension("JPEG").is_some());
    assert!(v.find_file_type_by_extension("gif").is_none());
}

#[test]
fn registry_zip_entry_matches_table() {
    let v = FileValidator::new();
    let zip = v.find_file_type_by_extension("zip").unwrap();
    assert_eq!(zip.name, "ZIP");
    assert_eq!(zip.extensions, vec!["zip".to_string()]);
    assert_eq!(zip.content_types, vec!["application/zip".to_string()]);
    assert_eq!(zip.magic_numbers, vec![vec![0x50, 0x4b, 0x03, 0x04]]);
    assert_eq!(zip.max_size, 100 * 1024 * 1024);
}

#[test]
fn compound_extension_is_one_token() {
    // a type registered for the compound token matches it, and the plain
    // "gz" token matches neither it nor anything built in
    let mut v = FileValidator::new();
    let targz = FileType::new("TARGZ", vec!["tar.gz"], vec!["application/gzip"], vec![], 100);
    v.register_file_type(targz);
    assert!(v.find_file_type_by_extension("tar.gz").is_some());
    assert!(v.find_file_type_by_extension("gz").is_none());
    assert_eq!(resolved_ext("bundle.tar.gz"), "tar.gz");
    assert_eq!(resolved_ext("bundle.gz"), "gz");
    assert_eq!(resolved_ext("bundle.zip"), "zip");
    assert_eq!(resolved_ext("archive"), "archive");
}

#[test]
fn lookup_by_exact_name() {
    let v = FileValidator::new();
    assert_eq!(v.find_file_type_by_name("ZIP").unwrap().name, "ZIP");
    assert_eq!(v.find_file_type_by_name("JPEG").unwrap().name, "JPEG");
    assert!(v.find_file_type_by_name("zip").is_none());
    assert!(v.find_file_type_by_name("GIF").is_none());
}

#[test]
fn register_overwrites_by_name() {
    let mut v = FileValidator::new();
    let replacement = FileType::new("PNG", vec!["png"], vec!["image/png"], vec![], 42);
    v.register_file_type(replacement);
    let png = v.find_file_type_by_extension("png").unwrap();
    assert_eq!(png.max_size, 42);
    // still exactly one PNG entry: only one descriptor matches
    assert!(v.find_file_type_by_extension("zip").is_some());
}

#[test]
fn upload_unknown_extension_rejected() {
    let v = FileValidator::new();
    let chunks = vec![png_payload()];
    let r = validate_upload(&v, Some("notes.txt"), "text/plain", &chunks);
    assert_eq!(r.unwrap_err(), ValidationError::UnsupportedFileType);
}

#[test]
fn upload_missing_filename_rejected_as_unknown_type() {
    let v = FileValidator::new();
    let chunks = vec![png_payload()];
    let r = validate_upload(&v, None, "image/png", &chunks);
    assert_eq!(r.unwrap_err(), ValidationError::UnsupportedFileType);
}

#[test]
fn upload_valid_png_accepted() {
    let v = FileValidator::new();
    let chunks = vec![png_payload()];
    let r = validate_upload(&v, Some("IMG.PNG"), "image/png", &chunks);
    assert_eq!(r.unwrap(), png_payload());
}

#[test]
fn error_codes_and_messages() {
    assert_eq!(ValidationError::NoFilename.describe().code, 400);
    assert_eq!(ValidationError::PayloadTooLarge.describe().code, 413);
    assert_eq!(ValidationError::UnsupportedExtension.describe().code, 415);
    assert_eq!(ValidationError::UnsupportedContentType.describe().code, 415);
    assert_eq!(ValidationError::BadSignature.describe().code, 415);
    assert_eq!(ValidationError::UnsupportedFileType.describe().code, 415);
    assert_eq!(
        ValidationError::NoFilename.describe().message,
        "No filename provided"
    );
    assert_eq!(
        ValidationError::PayloadTooLarge.describe().message,
        "File exceeds maximum allowed size"
    );
}

#[test]
fn case_insensitive_comparison() {
    assert!(eq_ignore_case("TAR.GZ", "tar.gz"));
    assert!(eq_ignore_case("", ""));
    assert!(!eq_ignore_case("tar", "targ"));
    assert!(!eq_ignore_case("a-b", "a_b"));
}
