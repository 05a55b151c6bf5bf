//! The registry of recognized file types and the per-type validation rules:
//! allowed extensions, allowed content types, magic-number prefixes and a
//! maximum size in bytes.

use vstd::prelude::*;
use crate::text::{str_ieq, spec_resolved_ext, eq_exact, eq_ignore_case, resolved_ext};

verus! {

/// The validation rule-set for one recognized file type.
///
/// `extensions` are matched against a filename's resolved extension token
/// (a trailing `".tar.gz"` counts as one compound token) ignoring ASCII
/// case; `content_types` are matched ignoring ASCII case; `magic_numbers`
/// is a list of byte prefixes of which any one must open the payload, and
/// an empty list accepts every payload; `max_size` bounds the payload's
/// total length in bytes.
pub struct FileType {
    pub name: String,
    pub extensions: Vec<String>,
    pub content_types: Vec<String>,
    pub magic_numbers: Vec<Vec<u8>>,
    pub max_size: usize,
}

impl FileType {
    /// The extension tokens this type allows, as character sequences.
    pub open spec fn exts(&self) -> Seq<Seq<char>> {
        self.extensions@.map_values(|s: String| s@)
    }

    /// The content types this type allows, as character sequences.
    pub open spec fn ctypes(&self) -> Seq<Seq<char>> {
        self.content_types@.map_values(|s: String| s@)
    }

    /// The magic-number prefixes this type recognizes, as byte sequences.
    pub open spec fn magics(&self) -> Seq<Seq<u8>> {
        self.magic_numbers@.map_values(|v: Vec<u8>| v@)
    }

    /// The filename's resolved extension is one of the allowed tokens,
    /// ignoring ASCII case.
    pub open spec fn ext_allowed(&self, filename: Seq<char>) -> bool {
        exists|i: int|
            0 <= i < self.exts().len() && str_ieq(self.exts()[i], spec_resolved_ext(filename))
    }

    /// The declared content type is one of the allowed ones, ignoring ASCII
    /// case.
    pub open spec fn ctype_allowed(&self, content_type: Seq<char>) -> bool {
        exists|i: int| 0 <= i < self.ctypes().len() && str_ieq(self.ctypes()[i], content_type)
    }

    /// `data` opens with one of the configured magic numbers; a type with no
    /// magic numbers accepts every payload.
    pub open spec fn magic_ok(&self, data: Seq<u8>) -> bool {
        self.magics().len() == 0 || exists|i: int|
            0 <= i < self.magics().len() && self.magics()[i].is_prefix_of(data)
    }

    /// Builds a file type from borrowed name, extension and content-type
    /// lists, its magic numbers and its size bound.
    pub fn new(
        name: &str,
        extensions: Vec<&str>,
        content_types: Vec<&str>,
        magic_numbers: Vec<Vec<u8>>,
        max_size: usize,
    ) -> (r: FileType)
        ensures
            r.name@ == name@,
            r.exts() == extensions@.map_values(|s: &str| s@),
            r.ctypes() == content_types@.map_values(|s: &str| s@),
            r.magics() == magic_numbers@.map_values(|v: Vec<u8>| v@),
            r.max_size == max_size,
    {
        let mut exts: Vec<String> = Vec::new();
        let mut i: usize = 0;
        while i < extensions.len()
            invariant
                i <= extensions@.len(),
                exts@.len() == i,
                forall|j: int| 0 <= j < i ==> exts@[j]@ == extensions@[j]@,
            decreases extensions@.len() - i,
        {
            exts.push(extensions[i].to_owned());
            i = i + 1;
        }
        let mut ctypes: Vec<String> = Vec::new();
        let mut k: usize = 0;
        while k < content_types.len()
            invariant
                k <= content_types@.len(),
                ctypes@.len() == k,
                forall|j: int| 0 <= j < k ==> ctypes@[j]@ == content_types@[j]@,
            decreases content_types@.len() - k,
        {
            ctypes.push(content_types[k].to_owned());
            k = k + 1;
        }
        let r = FileType {
            name: name.to_owned(),
            extensions: exts,
            content_types: ctypes,
            magic_numbers,
            max_size,
        };
        proof {
            assert(r.exts() =~= extensions@.map_values(|s: &str| s@));
            assert(r.ctypes() =~= content_types@.map_values(|s: &str| s@));
            assert(r.magics() =~= magic_numbers@.map_values(|v: Vec<u8>| v@));
        }
        r
    }

    /// Decides whether `filename`'s resolved extension is allowed for this
    /// type, ignoring ASCII case.  A trailing `".tar.gz"` counts as the one
    /// compound token `"tar.gz"`.
    pub fn validate_extension(&self, filename: &str) -> (r: bool)
        ensures
            r == self.ext_allowed(filename@),
    {
        let ext = resolved_ext(filename);
        self.matches_ext_token(ext.as_str())
    }

    /// Decides whether an already-resolved extension token is one of this
    /// type's allowed tokens, ignoring ASCII case.
    pub fn matches_ext_token(&self, token: &str) -> (r: bool)
        ensures
            r == exists|i: int|
                0 <= i < self.exts().len() && str_ieq(self.exts()[i], token@),
    {
        let mut i: usize = 0;
        while i < self.extensions.len()
            invariant
                i <= self.exts().len(),
                forall|j: int| 0 <= j < i ==> !str_ieq(self.exts()[j], token@),
            decreases self.exts().len() - i,
        {
            if eq_ignore_case(self.extensions[i].as_str(), token) {
                assert(str_ieq(self.exts()[i as int], token@));
                return true;
            }
            i = i + 1;
        }
        false
    }

    /// Decides whether `content_type` is one of this type's allowed content
    /// types, ignoring ASCII case.
    pub fn validate_content_type(&self, content_type: &str) -> (r: bool)
        ensures
            r == self.ctype_allowed(content_type@),
    {
        let mut i: usize = 0;
        while i < self.content_types.len()
            invariant
                i <= self.ctypes().len(),
                forall|j: int| 0 <= j < i ==> !str_ieq(self.ctypes()[j], content_type@),
            decreases self.ctypes().len() - i,
        {
            if eq_ignore_case(self.content_types[i].as_str(), content_type) {
                assert(str_ieq(self.ctypes()[i as int], content_type@));
                return true;
            }
            i = i + 1;
        }
        false
    }

    /// Decides whether `data` opens with one of the configured magic
    /// numbers; a type with no magic numbers accepts every payload.
    pub fn validate_magic_number(&self, data: &[u8]) -> (r: bool)
        ensures
            r == self.magic_ok(data@),
    {
        if self.magic_numbers.len() == 0 {
            return true;
        }
        let mut i: usize = 0;
        while i < self.magic_numbers.len()
            invariant
                i <= self.magics().len(),
                forall|j: int| 0 <= j < i ==> !self.magics()[j].is_prefix_of(data@),
            decreases self.magics().len() - i,
        {
            if is_byte_prefix(&self.magic_numbers[i], data) {
                assert(self.magics()[i as int].is_prefix_of(data@));
                return true;
            }
            i = i + 1;
        }
        false
    }
}

/// The position of the first type in `s` whose name is `name`, or `s.len()`
/// when no type has it.
pub open spec fn spec_find_name(s: Seq<FileType>, name: Seq<char>) -> int
    decreases s.len(),
{
    if s.len() == 0 {
        0
    } else if s[0].name@ == name {
        0
    } else {
        1 + spec_find_name(s.drop_first(), name)
    }
}

proof fn lemma_find_name_at(s: Seq<FileType>, name: Seq<char>, k: int)
    requires
        0 <= k <= s.len(),
        forall|j: int| 0 <= j < k ==> s[j].name@ != name,
        k < s.len() ==> s[k].name@ == name,
    ensures
        spec_find_name(s, name) == k,
    decreases s.len(),
{
    if s.len() == 0 {
    } else if k == 0 {
    } else {
        assert(s[0].name@ != name);
        lemma_find_name_at(s.drop_first(), name, k - 1);
    }
}

/// The registry of recognized file types, keyed by type name; lookups by
/// extension scan the types in registration order.
pub struct FileValidator {
    file_types: Vec<FileType>,
}

impl FileValidator {
    /// The registered types, in registration order.
    pub closed spec fn types(&self) -> Seq<FileType> {
        self.file_types@
    }

    /// Well-formedness: no two registered types share a name.
    pub open spec fn wf(&self) -> bool {
        forall|i: int, j: int|
            0 <= i < j < self.types().len() ==> self.types()[i].name@ != self.types()[j].name@
    }

    /// A registry holding exactly the built-in types for zip archives, PNG
    /// images and JPEG images, in that order, with the documented
    /// extensions, content types, magic numbers and size bounds.
    pub fn new() -> (r: FileValidator)
        ensures
            r.wf(),
            r.types().len() == 3,
            r.types()[0].name@ == "ZIP"@,
            r.types()[0].exts() =~= seq!["zip"@],
            r.types()[0].ctypes() =~= seq!["application/zip"@],
            r.types()[0].magics() =~= seq![seq![0x50u8, 0x4bu8, 0x03u8, 0x04u8]],
            r.types()[0].max_size == 104857600,
            r.types()[1].name@ == "PNG"@,
            r.types()[1].exts() =~= seq!["png"@],
            r.types()[1].ctypes() =~= seq!["image/png"@],
            r.types()[1].magics() =~= seq![
                seq![0x89u8, 0x50u8, 0x4eu8, 0x47u8, 0x0du8, 0x0au8, 0x1au8, 0x0au8],
            ],
            r.types()[1].max_size == 10485760,
            r.types()[2].name@ == "JPEG"@,
            r.types()[2].exts() =~= seq!["jpg"@, "jpeg"@],
            r.types()[2].ctypes() =~= seq!["image/jpeg"@],
            r.types()[2].magics() =~= seq![
                seq![0xffu8, 0xd8u8, 0xffu8, 0xe0u8],
                seq![0xffu8, 0xd8u8, 0xffu8, 0xe1u8],
            ],
            r.types()[2].max_size == 10485760,
    {
        let mut validator = FileValidator { file_types: Vec::new() };
        validator.register_default_types();
        validator
    }

    /// Registers the built-in types (zip archives, PNG images, JPEG images)
    /// into an empty registry.
    pub fn register_default_types(&mut self)
        requires
            old(self).types().len() == 0,
        ensures
            final(self).wf(),
            final(self).types().len() == 3,
            final(self).types()[0].name@ == "ZIP"@,
            final(self).types()[0].exts() =~= seq!["zip"@],
            final(self).types()[0].ctypes() =~= seq!["application/zip"@],
            final(self).types()[0].magics() =~= seq![seq![0x50u8, 0x4bu8, 0x03u8, 0x04u8]],
            final(self).types()[0].max_size == 104857600,
            final(self).types()[1].name@ == "PNG"@,
            final(self).types()[1].exts() =~= seq!["png"@],
            final(self).types()[1].ctypes() =~= seq!["image/png"@],
            final(self).types()[1].magics() =~= seq![
                seq![0x89u8, 0x50u8, 0x4eu8, 0x47u8, 0x0du8, 0x0au8, 0x1au8, 0x0au8],
            ],
            final(self).types()[1].max_size == 10485760,
            final(self).types()[2].name@ == "JPEG"@,
            final(self).types()[2].exts() =~= seq!["jpg"@, "jpeg"@],
            final(self).types()[2].ctypes() =~= seq!["image/jpeg"@],
            final(self).types()[2].magics() =~= seq![
                seq![0xffu8, 0xd8u8, 0xffu8, 0xe0u8],
                seq![0xffu8, 0xd8u8, 0xffu8, 0xe1u8],
            ],
            final(self).types()[2].max_size == 10485760,
    {
        let mut zip_magic: Vec<Vec<u8>> = Vec::new();
        zip_magic.push(byte_vec4(0x50, 0x4b, 0x03, 0x04));
        let zip_type = FileType::new(
            "ZIP",
            vec!["zip"],
            vec!["application/zip"],
            zip_magic,
            104857600,
        );

        let mut png_prefix: Vec<u8> = byte_vec4(0x89, 0x50, 0x4e, 0x47);
        png_prefix.push(0x0d);
        png_prefix.push(0x0a);
        png_prefix.push(0x1a);
        png_prefix.push(0x0a);
        assert(png_prefix@ =~= seq![0x89u8, 0x50u8, 0x4eu8, 0x47u8, 0x0du8, 0x0au8, 0x1au8, 0x0au8]);
        let mut png_magic: Vec<Vec<u8>> = Vec::new();
        png_magic.push(png_prefix);
        let png_type = FileType::new("PNG", vec!["png"], vec!["image/png"], png_magic, 10485760);

        let mut jpeg_magic: Vec<Vec<u8>> = Vec::new();
        jpeg_magic.push(byte_vec4(0xff, 0xd8, 0xff, 0xe0));
        jpeg_magic.push(byte_vec4(0xff, 0xd8, 0xff, 0xe1));
        let jpeg_type = FileType::new(
            "JPEG",
            vec!["jpg", "jpeg"],
            vec!["image/jpeg"],
            jpeg_magic,
            10485760,
        );

        proof {
            reveal_strlit("ZIP");
            reveal_strlit("PNG");
            reveal_strlit("JPEG");
            assert("ZIP"@[0] == 'Z' && "PNG"@[0] == 'P' && "JPEG"@[0] == 'J');
            assert("ZIP"@ != "PNG"@ && "ZIP"@ != "JPEG"@ && "PNG"@ != "JPEG"@);
        }
        self.file_types.push(zip_type);
        self.file_types.push(png_type);
        self.file_types.push(jpeg_type);
    }

    /// Adds a type to the registry, replacing the type of the same name if
    /// one is registered, in place, and appending otherwise.
    #[verifier::loop_isolation(false)]
    pub fn register_file_type(&mut self, file_type: FileType)
        requires
            old(self).wf(),
        ensures
            final(self).wf(),
            ({
                let i = spec_find_name(old(self).types(), file_type.name@);
                if i < old(self).types().len() {
                    final(self).types() == old(self).types().update(i, file_type)
                } else {
                    final(self).types() == old(self).types().push(file_type)
                }
            }),
    {
        let ghost orig = self.file_types@;
        let mut i: usize = 0;
        while i < self.file_types.len()
            invariant
                self.file_types@ == orig,
                i <= orig.len(),
                forall|j: int| 0 <= j < i ==> orig[j].name@ != file_type.name@,
            decreases orig.len() - i,
        {
            if self.file_types[i].name.eq(&file_type.name) {
                proof {
                    lemma_find_name_at(orig, file_type.name@, i as int);
                }
                self.file_types[i] = file_type;
                proof {
                    let t = self.file_types@;
                    assert(forall|k: int| 0 <= k < t.len() ==> t[k].name@ == orig[k].name@);
                }
                return;
            }
            i = i + 1;
        }
        proof {
            lemma_find_name_at(orig, file_type.name@, orig.len() as int);
        }
        self.file_types.push(file_type);
    }

    /// Returns the registered type of this exact name, or nothing when
    /// none carries it.
    #[verifier::loop_isolation(false)]
    pub fn find_file_type_by_name(&self, name: &str) -> (r: Option<&FileType>)
        ensures
            ({
                let i = spec_find_name(self.types(), name@);
                if i < self.types().len() {
                    r matches Option::Some(ft) && *ft == self.types()[i]
                } else {
                    r is None
                }
            }),
    {
        let ghost orig = self.file_types@;
        let mut i: usize = 0;
        while i < self.file_types.len()
            invariant
                i <= orig.len(),
                forall|j: int| 0 <= j < i ==> orig[j].name@ != name@,
            decreases orig.len() - i,
        {
            if eq_exact(self.file_types[i].name.as_str(), name) {
                proof {
                    lemma_find_name_at(orig, name@, i as int);
                }
                return Option::Some(&self.file_types[i]);
            }
            i = i + 1;
        }
        proof {
            lemma_find_name_at(orig, name@, orig.len() as int);
        }
        Option::None
    }

    /// Returns the first registered type whose extension set holds the
    /// already-resolved extension token, ignoring ASCII case, or nothing
    /// when no registered type allows it.
    pub fn find_file_type_by_extension(&self, extension: &str) -> (r: Option<&FileType>)
        ensures
            match r {
                Some(ft) => exists|i: int|
                    {
                        &&& 0 <= i < self.types().len()
                        &&& *ft == self.types()[i]
                        &&& token_matches(self.types()[i], extension@)
                        &&& forall|j: int| 0 <= j < i ==> !token_matches(self.types()[j], extension@)
                    },
                None => forall|i: int|
                    0 <= i < self.types().len() ==> !token_matches(self.types()[i], extension@),
            },
    {
        let mut i: usize = 0;
        while i < self.file_types.len()
            invariant
                i <= self.types().len(),
                forall|j: int| 0 <= j < i ==> !token_matches(self.types()[j], extension@),
            decreases self.types().len() - i,
        {
            if self.file_types[i].matches_ext_token(extension) {
                assert(token_matches(self.types()[i as int], extension@));
                return Some(&self.file_types[i]);
            }
            i = i + 1;
        }
        None
    }
}

/// The extension token `token` is in `t`'s extension set, ignoring ASCII
/// case.
pub open spec fn token_matches(t: FileType, token: Seq<char>) -> bool {
    exists|k: int| 0 <= k < t.exts().len() && str_ieq(t.exts()[k], token)
}

/// Builds a four-byte vector.
fn byte_vec4(a: u8, b: u8, c: u8, d: u8) -> (r: Vec<u8>)
    ensures
        r@ =~= seq![a, b, c, d],
{
    let mut r: Vec<u8> = Vec::new();
    r.push(a);
    r.push(b);
    r.push(c);
    r.push(d);
    r
}

/// Decides whether `prefix` is a byte prefix of `data`.
pub fn is_byte_prefix(prefix: &Vec<u8>, data: &[u8]) -> (r: bool)
    ensures
        r == prefix@.is_prefix_of(data@),
{
    if prefix.len() > data.len() {
        return false;
    }
    let mut i: usize = 0;
    while i < prefix.len()
        invariant
            prefix@.len() <= data@.len(),
            i <= prefix@.len(),
            forall|j: int| 0 <= j < i ==> prefix@[j] == data@[j],
        decreases prefix@.len() - i,
    {
        if prefix[i] != data[i] {
            return false;
        }
        i = i + 1;
    }
    proof {
        assert(prefix@ =~= data@.subrange(0, prefix@.len() as int));
    }
    true
}

} // verus!
