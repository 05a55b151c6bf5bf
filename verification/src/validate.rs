//! Streaming upload validation: a submission's filename, declared content
//! type and byte stream are checked against a file-type descriptor, chunk
//! by chunk, short-circuiting on the first violation.  The size bound is
//! enforced as the stream arrives, never after full buffering, and the
//! magic number is checked on the first chunk.

use vstd::prelude::*;
use crate::errors::ValidationError;
use crate::file_types::{FileType, FileValidator, token_matches};
use crate::text::spec_resolved_ext;

verus! {

/// The up-front checks on a submission's filename and declared content
/// type: a missing filename, a disallowed extension and a disallowed
/// content type are rejected in that order.
pub open spec fn spec_begin(
    ft: FileType,
    filename: Option<Seq<char>>,
    content_type: Seq<char>,
) -> Result<(), ValidationError> {
    match filename {
        Option::None => Result::Err(ValidationError::NoFilename),
        Option::Some(f) => if !ft.ext_allowed(f) {
            Result::Err(ValidationError::UnsupportedExtension)
        } else if !ft.ctype_allowed(content_type) {
            Result::Err(ValidationError::UnsupportedContentType)
        } else {
            Result::Ok(())
        },
    }
}

/// One streaming step: a chunk that would push the total over the size
/// bound is rejected before it is buffered; the first buffered bytes must
/// open with a configured magic number; otherwise the chunk is appended.
pub open spec fn spec_push(ft: FileType, bytes: Seq<u8>, chunk: Seq<u8>) -> Result<
    Seq<u8>,
    ValidationError,
> {
    if bytes.len() + chunk.len() > ft.max_size {
        Result::Err(ValidationError::PayloadTooLarge)
    } else if bytes.len() == 0 && !ft.magic_ok(chunk) {
        Result::Err(ValidationError::BadSignature)
    } else {
        Result::Ok(bytes + chunk)
    }
}

/// Folds `spec_push` over a whole chunk stream, short-circuiting on the
/// first violation.
pub open spec fn spec_consume(ft: FileType, bytes: Seq<u8>, chunks: Seq<Seq<u8>>) -> Result<
    Seq<u8>,
    ValidationError,
>
    decreases chunks.len(),
{
    if chunks.len() == 0 {
        Result::Ok(bytes)
    } else {
        match spec_push(ft, bytes, chunks[0]) {
            Result::Err(e) => Result::Err(e),
            Result::Ok(b) => spec_consume(ft, b, chunks.drop_first()),
        }
    }
}

/// The outcome of validating a whole submission against a descriptor: the
/// assembled payload, or the first violation found.
pub open spec fn spec_validate(
    ft: FileType,
    filename: Option<Seq<char>>,
    content_type: Seq<char>,
    chunks: Seq<Seq<u8>>,
) -> Result<Seq<u8>, ValidationError> {
    match spec_begin(ft, filename, content_type) {
        Result::Err(e) => Result::Err(e),
        Result::Ok(_) => spec_consume(ft, Seq::empty(), chunks),
    }
}

/// The bytes of a partially consumed stream that has passed every check so
/// far.
#[derive(Debug)]
pub struct StreamState {
    buffer: Vec<u8>,
}

impl StreamState {
    /// The bytes buffered so far.
    pub closed spec fn bytes(&self) -> Seq<u8> {
        self.buffer@
    }
}

/// Checks a submission's filename and declared content type against the
/// descriptor and opens an empty stream state.
pub fn begin_validation(ft: &FileType, filename: Option<&str>, content_type: &str) -> (r: Result<
    StreamState,
    ValidationError,
>)
    ensures
        match spec_begin(*ft, option_view(filename), content_type@) {
            Result::Ok(_) => r is Ok && r.unwrap().bytes() == Seq::<u8>::empty(),
            Result::Err(e) => r is Err && r.unwrap_err() == e,
        },
{
    match filename {
        Option::None => Result::Err(ValidationError::NoFilename),
        Option::Some(f) => {
            if !ft.validate_extension(f) {
                Result::Err(ValidationError::UnsupportedExtension)
            } else if !ft.validate_content_type(content_type) {
                Result::Err(ValidationError::UnsupportedContentType)
            } else {
                Result::Ok(StreamState { buffer: Vec::new() })
            }
        },
    }
}

/// The view of an optional borrowed string.
pub open spec fn option_view(s: Option<&str>) -> Option<Seq<char>> {
    match s {
        Option::None => Option::None,
        Option::Some(f) => Option::Some(f@),
    }
}

/// Consumes one chunk of the stream, as `spec_push` describes; on a
/// violation the state is left unchanged and the stream is abandoned.
pub fn push_chunk(st: &mut StreamState, ft: &FileType, chunk: &[u8]) -> (r: Result<
    (),
    ValidationError,
>)
    ensures
        match spec_push(*ft, old(st).bytes(), chunk@) {
            Result::Ok(b) => r is Ok && final(st).bytes() == b,
            Result::Err(e) => r is Err && r.unwrap_err() == e && final(st).bytes() == old(
                st,
            ).bytes(),
        },
{
    if chunk.len() > ft.max_size || st.buffer.len() > ft.max_size - chunk.len() {
        return Result::Err(ValidationError::PayloadTooLarge);
    }
    if st.buffer.len() == 0 && !ft.validate_magic_number(chunk) {
        return Result::Err(ValidationError::BadSignature);
    }
    st.buffer.extend_from_slice(chunk);
    Result::Ok(())
}

/// Closes the stream and hands back the assembled payload.
pub fn finish_validation(st: StreamState) -> (r: Vec<u8>)
    ensures
        r@ == st.bytes(),
{
    st.buffer
}

/// Validates a fully given chunk stream against a descriptor, as
/// `spec_validate` describes.
#[verifier::loop_isolation(false)]
pub fn validate_chunks(
    ft: &FileType,
    filename: Option<&str>,
    content_type: &str,
    chunks: &Vec<Vec<u8>>,
) -> (r: Result<Vec<u8>, ValidationError>)
    ensures
        match spec_validate(*ft, option_view(filename), content_type@, chunk_views(chunks@)) {
            Result::Ok(b) => r is Ok && r.unwrap()@ == b,
            Result::Err(e) => r is Err && r.unwrap_err() == e,
        },
{
    let ghost all = chunk_views(chunks@);
    let mut st = match begin_validation(ft, filename, content_type) {
        Result::Ok(st) => st,
        Result::Err(e) => {
            return Result::Err(e);
        },
    };
    proof {
        assert(all.skip(0) =~= all);
    }
    let mut i: usize = 0;
    while i < chunks.len()
        invariant
            i <= chunks@.len(),
            all == chunk_views(chunks@),
            spec_consume(*ft, st.bytes(), all.skip(i as int)) == spec_consume(
                *ft,
                Seq::empty(),
                all,
            ),
        decreases chunks@.len() - i,
    {
        proof {
            assert(all.skip(i as int)[0] == all[i as int]);
            assert(all.skip(i as int).drop_first() =~= all.skip(i as int + 1));
        }
        match push_chunk(&mut st, ft, chunks[i].as_slice()) {
            Result::Ok(_) => {},
            Result::Err(e) => {
                return Result::Err(e);
            },
        }
        i = i + 1;
    }
    proof {
        assert(all.skip(i as int) =~= Seq::<Seq<u8>>::empty());
    }
    Result::Ok(finish_validation(st))
}

/// The views of a sequence of byte chunks.
pub open spec fn chunk_views(chunks: Seq<Vec<u8>>) -> Seq<Seq<u8>> {
    chunks.map_values(|c: Vec<u8>| c@)
}

/// The outcome of a whole upload: the filename's resolved extension picks
/// the first matching registered type, and the submission is then validated
/// against it; a filename (or an absent one, resolving to the empty token)
/// matching no registered type is rejected as an unsupported file type.
pub open spec fn spec_upload(
    v: FileValidator,
    filename: Option<Seq<char>>,
    content_type: Seq<char>,
    chunks: Seq<Seq<u8>>,
) -> Result<Seq<u8>, ValidationError> {
    let fname = match filename {
        Option::None => Seq::empty(),
        Option::Some(f) => f,
    };
    let token = spec_resolved_ext(fname);
    if forall|i: int| 0 <= i < v.types().len() ==> !token_matches(v.types()[i], token) {
        Result::Err(ValidationError::UnsupportedFileType)
    } else {
        let i = choose|i: int|
            0 <= i < v.types().len() && token_matches(v.types()[i], token) && (forall|j: int|
                0 <= j < i ==> !token_matches(v.types()[j], token));
        spec_validate(v.types()[i], filename, content_type, chunks)
    }
}

/// Runs a whole upload against the registry, as `spec_upload` describes.
pub fn validate_upload(
    v: &FileValidator,
    filename: Option<&str>,
    content_type: &str,
    chunks: &Vec<Vec<u8>>,
) -> (r: Result<Vec<u8>, ValidationError>)
    ensures
        match spec_upload(*v, option_view(filename), content_type@, chunk_views(chunks@)) {
            Result::Ok(b) => r is Ok && r.unwrap()@ == b,
            Result::Err(e) => r is Err && r.unwrap_err() == e,
        },
{
    let fname: &str = match filename {
        Option::None => "",
        Option::Some(f) => f,
    };
    proof {
        reveal_strlit("");
        assert(""@ =~= Seq::<char>::empty());
    }
    let token = crate::text::resolved_ext(fname);
    let ft = match v.find_file_type_by_extension(token.as_str()) {
        Option::None => {
            return Result::Err(ValidationError::UnsupportedFileType);
        },
        Option::Some(ft) => ft,
    };
    validate_chunks(ft, filename, content_type, chunks)
}

/// The total length of a chunk stream.
pub open spec fn total_len(chunks: Seq<Seq<u8>>) -> int
    decreases chunks.len(),
{
    if chunks.len() == 0 {
        0
    } else {
        chunks[0].len() + total_len(chunks.drop_first())
    }
}

/// A stream accepted in full was never buffered beyond the descriptor's
/// size bound: the assembled payload is the chunks in order, and its
/// length fits the bound.
pub proof fn lemma_consume_ok_bounded(ft: FileType, bytes: Seq<u8>, chunks: Seq<Seq<u8>>)
    requires
        bytes.len() <= ft.max_size,
        spec_consume(ft, bytes, chunks) is Ok,
    ensures
        spec_consume(ft, bytes, chunks).unwrap().len() == bytes.len() + total_len(chunks),
        bytes.len() + total_len(chunks) <= ft.max_size,
    decreases chunks.len(),
{
    if chunks.len() > 0 {
        lemma_consume_ok_bounded(ft, bytes + chunks[0], chunks.drop_first());
    }
}

/// A stream whose cumulative length exceeds the descriptor's size bound is
/// never accepted: validation returns an error.
pub proof fn lemma_oversized_never_accepted(
    ft: FileType,
    filename: Option<Seq<char>>,
    content_type: Seq<char>,
    chunks: Seq<Seq<u8>>,
)
    requires
        total_len(chunks) > ft.max_size,
    ensures
        spec_validate(ft, filename, content_type, chunks) is Err,
{
    if spec_validate(ft, filename, content_type, chunks) is Ok {
        lemma_consume_ok_bounded(ft, Seq::empty(), chunks);
    }
}

proof fn lemma_consume_oversized(ft: FileType, bytes: Seq<u8>, chunks: Seq<Seq<u8>>)
    requires
        0 < bytes.len() <= ft.max_size,
        bytes.len() + total_len(chunks) > ft.max_size,
    ensures
        spec_consume(ft, bytes, chunks) == Result::<Seq<u8>, ValidationError>::Err(
            ValidationError::PayloadTooLarge,
        ),
    decreases chunks.len(),
{
    if chunks.len() == 0 {
        assert(total_len(chunks) == 0);
    } else if bytes.len() + chunks[0].len() > ft.max_size {
    } else {
        lemma_consume_oversized(ft, bytes + chunks[0], chunks.drop_first());
    }
}

/// A stream whose cumulative length exceeds the descriptor's size bound
/// fails with the payload-too-large error as soon as the bound is crossed,
/// provided its first chunk is not itself rejected for a bad signature:
/// either that chunk alone already crosses the bound, or it is non-empty
/// and opens with a configured magic number.
pub proof fn lemma_oversized_rejected(
    ft: FileType,
    filename: Seq<char>,
    content_type: Seq<char>,
    chunks: Seq<Seq<u8>>,
)
    requires
        ft.ext_allowed(filename),
        ft.ctype_allowed(content_type),
        total_len(chunks) > ft.max_size,
        chunks.len() > 0,
        chunks[0].len() > ft.max_size || (chunks[0].len() > 0 && ft.magic_ok(chunks[0])),
    ensures
        spec_validate(ft, Option::Some(filename), content_type, chunks) == Result::<
            Seq<u8>,
            ValidationError,
        >::Err(ValidationError::PayloadTooLarge),
{
    if chunks[0].len() > ft.max_size {
    } else {
        assert(Seq::<u8>::empty() + chunks[0] =~= chunks[0]);
        lemma_consume_oversized(ft, chunks[0], chunks.drop_first());
    }
}

/// For a descriptor with at least one magic number, a stream whose first
/// chunk fits the size bound but opens with none of the configured magic
/// numbers fails with the bad-signature error, even when the extension and
/// content type both match.
pub proof fn lemma_bad_signature_rejected(
    ft: FileType,
    filename: Seq<char>,
    content_type: Seq<char>,
    chunks: Seq<Seq<u8>>,
)
    requires
        ft.ext_allowed(filename),
        ft.ctype_allowed(content_type),
        ft.magics().len() > 0,
        chunks.len() > 0,
        chunks[0].len() <= ft.max_size,
        !ft.magic_ok(chunks[0]),
    ensures
        spec_validate(ft, Option::Some(filename), content_type, chunks) == Result::<
            Seq<u8>,
            ValidationError,
        >::Err(ValidationError::BadSignature),
{
}

/// A filename whose resolved extension is not in the descriptor's extension
/// set is rejected with the unsupported-extension error, whatever the
/// content type and stream hold.
pub proof fn lemma_wrong_extension_rejected(
    ft: FileType,
    filename: Seq<char>,
    content_type: Seq<char>,
    chunks: Seq<Seq<u8>>,
)
    requires
        !ft.ext_allowed(filename),
    ensures
        spec_validate(ft, Option::Some(filename), content_type, chunks) == Result::<
            Seq<u8>,
            ValidationError,
        >::Err(ValidationError::UnsupportedExtension),
{
}

} // verus!
