//! Archive container formats and storage-key detection: a logical bundle
//! name resolves to a concrete stored key by probing the object store for
//! each candidate format in a fixed priority order, zip before tar.gz.

use vstd::prelude::*;

verus! {

/// A bundle's container format, carrying its canonical key suffix.
#[derive(PartialEq, Eq, Structural, Clone, Copy, Debug)]
pub enum ArchiveFormat {
    Zip,
    TarGz,
}

impl ArchiveFormat {
    /// The canonical storage-key suffix of this format.
    pub open spec fn spec_suffix(&self) -> Seq<char> {
        match self {
            ArchiveFormat::Zip => ".zip"@,
            ArchiveFormat::TarGz => ".tar.gz"@,
        }
    }

    /// Returns the canonical storage-key suffix of this format.
    pub fn suffix(&self) -> (s: &'static str)
        ensures
            s@ == self.spec_suffix(),
    {
        match self {
            ArchiveFormat::Zip => ".zip",
            ArchiveFormat::TarGz => ".tar.gz",
        }
    }
}

/// The storage key a bundle name resolves to under a format: the name with
/// the format's suffix appended.
pub fn storage_key(name: &str, format: ArchiveFormat) -> (k: String)
    ensures
        k@ == name@ + format.spec_suffix(),
{
    crate::text::concat_str(name, format.suffix())
}

/// The format a storage key's suffix announces: `.zip` wins over
/// `.tar.gz`, and a key with neither suffix has none.
pub open spec fn spec_format_for_key(key: Seq<char>) -> Option<ArchiveFormat> {
    if key.len() >= 4 && key.subrange(key.len() - 4, key.len() as int) == ".zip"@ {
        Option::Some(ArchiveFormat::Zip)
    } else if crate::text::spec_has_tar_gz_suffix(key) {
        Option::Some(ArchiveFormat::TarGz)
    } else {
        Option::None
    }
}

/// Reads the format off a storage key's suffix, as `spec_format_for_key`
/// describes.
pub fn format_for_key(key: &str) -> (r: Option<ArchiveFormat>)
    ensures
        r == spec_format_for_key(key@),
{
    let len = key.unicode_len();
    if len >= 4 {
        let tail = key.substring_char(len - 4, len);
        proof {
            reveal_strlit(".zip");
        }
        if crate::text::eq_exact(tail, ".zip") {
            proof {
                assert(key@.subrange(key@.len() - 4, key@.len() as int) == ".zip"@);
            }
            return Option::Some(ArchiveFormat::Zip);
        }
    }
    if crate::text::has_tar_gz_suffix(key) {
        Option::Some(ArchiveFormat::TarGz)
    } else {
        Option::None
    }
}

/// What detection returns for a bundle name, given which candidate keys
/// exist in the object store: the zip key when it exists, else the tar.gz
/// key when it exists, else nothing.
pub open spec fn spec_detect(name: Seq<char>, zip_exists: bool, tar_gz_exists: bool) -> Option<
    (Seq<char>, ArchiveFormat),
> {
    if zip_exists {
        Option::Some((name + ".zip"@, ArchiveFormat::Zip))
    } else if tar_gz_exists {
        Option::Some((name + ".tar.gz"@, ArchiveFormat::TarGz))
    } else {
        Option::None
    }
}

/// The state of a detection in progress.  Detection probes the object
/// store for one candidate key at a time; the shell answers each probe
/// with the store's existence check.
pub enum DetectState {
    /// Waiting for the store's answer about the zip candidate key.
    ProbingZip { key: String },
    /// Waiting for the store's answer about the tar.gz candidate key.
    ProbingTarGz { key: String },
    /// Detection found the stored key and its format.
    Found { key: String, format: ArchiveFormat },
    /// Neither candidate key exists in the store.
    Absent,
}

/// Opens detection for a bundle name: the zip candidate is probed first.
pub fn detect_begin(name: &str) -> (s: DetectState)
    ensures
        s matches DetectState::ProbingZip { key } && key@ == name@ + ".zip"@,
{
    DetectState::ProbingZip { key: storage_key(name, ArchiveFormat::Zip) }
}

/// Advances detection with the store's answer to the pending probe: a zip
/// hit resolves to the zip key; a zip miss probes the tar.gz candidate; a
/// tar.gz hit resolves to the tar.gz key; a tar.gz miss ends the detection
/// with no stored key.  A finished detection is left unchanged.
pub fn detect_on_probe(name: &str, s: DetectState, exists: bool) -> (r: DetectState)
    ensures
        s matches DetectState::ProbingZip { key } ==> (exists ==> (r matches DetectState::Found {
            key: k,
            format,
        } && k@ == key@ && format == ArchiveFormat::Zip)),
        s is ProbingZip ==> (!exists ==> (r matches DetectState::ProbingTarGz { key: k } && k@
            == name@ + ".tar.gz"@)),
        s matches DetectState::ProbingTarGz { key } ==> (exists ==> (r
            matches DetectState::Found { key: k, format } && k@ == key@ && format
            == ArchiveFormat::TarGz)),
        s is ProbingTarGz ==> (!exists ==> r is Absent),
        (s is Found || s is Absent) ==> r == s,
{
    match s {
        DetectState::ProbingZip { key } => {
            if exists {
                DetectState::Found { key, format: ArchiveFormat::Zip }
            } else {
                DetectState::ProbingTarGz { key: storage_key(name, ArchiveFormat::TarGz) }
            }
        },
        DetectState::ProbingTarGz { key } => {
            if exists {
                DetectState::Found { key, format: ArchiveFormat::TarGz }
            } else {
                DetectState::Absent
            }
        },
        DetectState::Found { key, format } => DetectState::Found { key, format },
        DetectState::Absent => DetectState::Absent,
    }
}

/// Detection order: whenever the zip candidate exists in the store, a
/// bundle name resolves to its zip key, whatever the tar.gz probe would
/// say.
pub proof fn lemma_detection_prefers_zip(name: Seq<char>, zip_exists: bool, tar_gz_exists: bool)
    requires
        zip_exists,
    ensures
        spec_detect(name, zip_exists, tar_gz_exists) == Option::Some(
            (name + ".zip"@, ArchiveFormat::Zip),
        ),
{
}

/// A bundle name resolves to some stored key exactly when one of its two
/// candidate keys exists in the store.
pub proof fn lemma_detection_complete(name: Seq<char>, zip_exists: bool, tar_gz_exists: bool)
    ensures
        spec_detect(name, zip_exists, tar_gz_exists) is Some <==> (zip_exists || tar_gz_exists),
{
}

} // verus!
