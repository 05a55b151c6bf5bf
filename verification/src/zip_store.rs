//! The trusted boundary to the zip crate: parsing an in-memory archive
//! into its entries.  Everything downstream — sanitizing entry names,
//! planning writes, listing result paths — is verified code in
//! `crate::extract`.

use vstd::prelude::*;
use crate::extract::{ZipEntry, FsWrite, plan_zip_extraction, spec_plan};

verus! {

/// Whether these bytes are an archive the zip crate can open: its central
/// directory parses.  A function of the bytes alone.
pub uninterp spec fn zip_well_formed(data: Seq<u8>) -> bool;

/// The readable entries of an archive, in stored order, each as its
/// embedded name, its directory flag and its decompressed bytes; entries
/// whose metadata or bytes the zip crate cannot read are left out.  A
/// function of the bytes alone.
pub uninterp spec fn zip_entries_of(data: Seq<u8>) -> Seq<(Seq<char>, bool, Seq<u8>)>;

/// Relies on `zip::ZipArchive::new` to open an in-memory archive (it
/// succeeds exactly when the central directory parses), and on
/// `ZipArchive::len`, `ZipArchive::by_index`, `ZipFile::name`,
/// `ZipFile::is_dir` and the `std::io::Read` impl of `ZipFile` to walk the
/// entries in stored order; an entry whose header or bytes cannot be read
/// is skipped, deterministically for given bytes.
#[verifier::external_body]
pub fn parse_zip_archive(data: &Vec<u8>) -> (r: Result<Vec<ZipEntry>, String>)
    ensures
        r is Ok <==> zip_well_formed(data@),
        r matches Ok(entries) ==> entries@.map_values(|e: ZipEntry| e@) == zip_entries_of(data@),
{
    let mut archive = zip::ZipArchive::new(std::io::Cursor::new(data.clone())).map_err(|e|
        e.to_string())?;
    let mut out = Vec::new();
    for i in 0..archive.len() {
        if let Ok(mut f) = archive.by_index(i) {
            let mut buf = Vec::new();
            if std::io::Read::read_to_end(&mut f, &mut buf).is_ok() {
                out.push(ZipEntry { name: f.name().to_string(), is_dir: f.is_dir(), data: buf });
            }
        }
    }
    Ok(out)
}

/// Parses downloaded archive bytes and plans their extraction into
/// `output_dir`: the sanitized writes of the archive's entries in stored
/// order, or the zip crate's message when the bytes are not an archive.
pub fn plan_from_archive_bytes(data: &Vec<u8>, output_dir: &str) -> (r: Result<Vec<FsWrite>, String>)
    ensures
        r is Ok <==> zip_well_formed(data@),
        r matches Ok(plan) ==> plan@.map_values(|w: FsWrite| w.view_triple()) == spec_plan(
            zip_entries_of(data@),
            output_dir@,
        ),
{
    match parse_zip_archive(data) {
        Result::Ok(entries) => Result::Ok(plan_zip_extraction(&entries, output_dir)),
        Result::Err(e) => Result::Err(e),
    }
}

} // verus!
