//! Planning the extraction of a zip archive into an output directory.
//!
//! An archive's embedded entry names are untrusted.  Each name is split on
//! `'/'` and every component that is empty, `"."` or `".."` is dropped, so
//! absolute paths and parent-directory traversal are neutralized before the
//! name is joined under the output directory.  The plan lists the directory
//! creations and file writes in entry order; the unverified shell performs
//! them.

use vstd::prelude::*;
use crate::text::eq_exact;

verus! {

/// Splits `s` on `sep`.  The result always holds at least one piece; a
/// separator at either end or two adjacent separators yield empty pieces.
pub open spec fn spec_split(s: Seq<char>, sep: char) -> Seq<Seq<char>>
    decreases s.len(),
{
    if s.len() == 0 {
        seq![Seq::empty()]
    } else if s[0] == sep {
        seq![Seq::empty()] + spec_split(s.drop_first(), sep)
    } else {
        let rest = spec_split(s.drop_first(), sep);
        seq![seq![s[0]] + rest[0]] + rest.drop_first()
    }
}

/// Joins pieces with `sep` between them.
pub open spec fn spec_join(parts: Seq<Seq<char>>, sep: char) -> Seq<char>
    decreases parts.len(),
{
    if parts.len() == 0 {
        Seq::empty()
    } else if parts.len() == 1 {
        parts[0]
    } else {
        parts[0] + seq![sep] + spec_join(parts.drop_first(), sep)
    }
}

/// A path component that is safe to create under the output directory:
/// non-empty, not the current directory and not the parent directory.
pub open spec fn safe_component(c: Seq<char>) -> bool {
    c.len() > 0 && c != "."@ && c != ".."@
}

/// The safe components of a split entry name, in order; the rest are
/// dropped.
pub open spec fn keep_safe(parts: Seq<Seq<char>>) -> Seq<Seq<char>>
    decreases parts.len(),
{
    if parts.len() == 0 {
        Seq::empty()
    } else if safe_component(parts[0]) {
        seq![parts[0]] + keep_safe(parts.drop_first())
    } else {
        keep_safe(parts.drop_first())
    }
}

proof fn lemma_split_nonempty(s: Seq<char>, sep: char)
    ensures
        spec_split(s, sep).len() >= 1,
    decreases s.len(),
{
    if s.len() > 0 {
        lemma_split_nonempty(s.drop_first(), sep);
    }
}

proof fn lemma_split_pieces_free(s: Seq<char>, sep: char)
    ensures
        forall|k: int|
            0 <= k < spec_split(s, sep).len() ==> !spec_split(s, sep)[k].contains(sep),
    decreases s.len(),
{
    if s.len() == 0 {
        assert forall|k: int|
            0 <= k < spec_split(s, sep).len() implies !spec_split(s, sep)[k].contains(sep) by {
            assert(spec_split(s, sep)[k] =~= Seq::<char>::empty());
        }
    } else if s[0] == sep {
        lemma_split_pieces_free(s.drop_first(), sep);
        assert forall|k: int|
            0 <= k < spec_split(s, sep).len() implies !spec_split(s, sep)[k].contains(sep) by {
            if k == 0 {
                assert(spec_split(s, sep)[0] =~= Seq::<char>::empty());
            } else {
                assert(spec_split(s, sep)[k] == spec_split(s.drop_first(), sep)[k - 1]);
            }
        }
    } else {
        lemma_split_pieces_free(s.drop_first(), sep);
        lemma_split_nonempty(s.drop_first(), sep);
        assert forall|k: int|
            0 <= k < spec_split(s, sep).len() implies !spec_split(s, sep)[k].contains(sep) by {
            let rest = spec_split(s.drop_first(), sep);
            if k == 0 {
                let piece = seq![s[0]] + rest[0];
                assert(!rest[0].contains(sep));
                if piece.contains(sep) {
                    let j = choose|j: int| 0 <= j < piece.len() && piece[j] == sep;
                    if j == 0 {
                        assert(s[0] == sep);
                    } else {
                        assert(rest[0][j - 1] == sep);
                        assert(rest[0].contains(sep));
                    }
                }
            } else {
                assert(spec_split(s, sep)[k] == rest[k]);
            }
        }
    }
}

/// Splitting a separator-free piece yields just that piece.
proof fn lemma_split_single(p: Seq<char>, sep: char)
    requires
        !p.contains(sep),
    ensures
        spec_split(p, sep) =~= seq![p],
    decreases p.len(),
{
    if p.len() == 0 {
        assert(spec_split(p, sep) == seq![Seq::<char>::empty()]);
        assert(p =~= Seq::<char>::empty());
    } else {
        assert(p[0] != sep);
        assert(!p.drop_first().contains(sep)) by {
            if p.drop_first().contains(sep) {
                let j = choose|j: int| 0 <= j < p.drop_first().len() && p.drop_first()[j] == sep;
                assert(p[j + 1] == sep);
            }
        }
        lemma_split_single(p.drop_first(), sep);
        assert(seq![p[0]] + p.drop_first() =~= p);
    }
}

/// Splitting `p + sep + rest`, with `p` separator-free, yields `p` followed
/// by the split of `rest`.
proof fn lemma_split_step(p: Seq<char>, rest: Seq<char>, sep: char)
    requires
        !p.contains(sep),
    ensures
        spec_split(p + seq![sep] + rest, sep) =~= seq![p] + spec_split(rest, sep),
    decreases p.len(),
{
    let s = p + seq![sep] + rest;
    if p.len() == 0 {
        assert(s[0] == sep);
        assert(s.drop_first() =~= rest);
        assert(p =~= Seq::<char>::empty());
        assert(spec_split(s, sep) =~= seq![p] + spec_split(rest, sep));
    } else {
        assert(s[0] == p[0]);
        assert(s[0] != sep);
        assert(!p.drop_first().contains(sep)) by {
            if p.drop_first().contains(sep) {
                let j = choose|j: int| 0 <= j < p.drop_first().len() && p.drop_first()[j] == sep;
                assert(p[j + 1] == sep);
            }
        }
        lemma_split_step(p.drop_first(), rest, sep);
        assert(s.drop_first() =~= p.drop_first() + seq![sep] + rest);
        let inner = spec_split(s.drop_first(), sep);
        assert(inner =~= seq![p.drop_first()] + spec_split(rest, sep));
        lemma_split_nonempty(rest, sep);
        assert(inner[0] == p.drop_first());
        assert(seq![s[0]] + inner[0] =~= p);
        assert(inner.drop_first() =~= spec_split(rest, sep));
        assert(spec_split(s, sep) =~= seq![p] + spec_split(rest, sep));
    }
}

/// Splitting the join of non-empty, separator-free pieces restores the
/// pieces.
proof fn lemma_split_of_join(parts: Seq<Seq<char>>, sep: char)
    requires
        parts.len() > 0,
        forall|k: int| 0 <= k < parts.len() ==> parts[k].len() > 0 && !parts[k].contains(sep),
    ensures
        spec_split(spec_join(parts, sep), sep) =~= parts,
    decreases parts.len(),
{
    if parts.len() == 1 {
        lemma_split_single(parts[0], sep);
    } else {
        lemma_split_of_join(parts.drop_first(), sep);
        lemma_split_step(parts[0], spec_join(parts.drop_first(), sep), sep);
    }
}

/// The kept components of any split are safe and separator-free.
proof fn lemma_keep_safe_props(parts: Seq<Seq<char>>, sep: char)
    requires
        forall|k: int| 0 <= k < parts.len() ==> !parts[k].contains(sep),
    ensures
        forall|k: int|
            0 <= k < keep_safe(parts).len() ==> safe_component(keep_safe(parts)[k]) && !keep_safe(
                parts,
            )[k].contains(sep),
    decreases parts.len(),
{
    if parts.len() > 0 {
        lemma_keep_safe_props(parts.drop_first(), sep);
        if safe_component(parts[0]) {
            assert forall|k: int|
                0 <= k < keep_safe(parts).len() implies safe_component(keep_safe(parts)[k])
                && !keep_safe(parts)[k].contains(sep) by {
                if k > 0 {
                    assert(keep_safe(parts)[k] == keep_safe(parts.drop_first())[k - 1]);
                }
            }
        }
    }
}

/// One zip entry, as the archive stores it: its embedded relative name,
/// whether it is a directory, and its bytes.
pub struct ZipEntry {
    pub name: String,
    pub is_dir: bool,
    pub data: Vec<u8>,
}

impl View for ZipEntry {
    type V = (Seq<char>, bool, Seq<u8>);

    open spec fn view(&self) -> (Seq<char>, bool, Seq<u8>) {
        (self.name@, self.is_dir, self.data@)
    }
}

/// One filesystem action of an extraction plan: create a directory, or
/// write a file with the given bytes.
pub enum FsWrite {
    Dir { path: String },
    File { path: String, data: Vec<u8> },
}

impl FsWrite {
    /// The path this action touches.
    pub open spec fn path_view(&self) -> Seq<char> {
        match self {
            FsWrite::Dir { path } => path@,
            FsWrite::File { path, data } => path@,
        }
    }

    /// This action, as a (path, is-directory, bytes) triple.
    pub open spec fn view_triple(&self) -> (Seq<char>, bool, Seq<u8>) {
        match self {
            FsWrite::Dir { path } => (path@, true, Seq::empty()),
            FsWrite::File { path, data } => (path@, false, data@),
        }
    }
}

/// The sanitized target path of one entry name under `dir`, or nothing
/// when every component of the name is dropped.
pub open spec fn spec_entry_path(dir: Seq<char>, name: Seq<char>) -> Option<Seq<char>> {
    let parts = keep_safe(spec_split(name, '/'));
    if parts.len() == 0 {
        Option::None
    } else {
        Option::Some(dir + seq!['/'] + spec_join(parts, '/'))
    }
}

/// The extraction plan for a list of entries under `dir`, as (path,
/// is-directory, bytes) triples in entry order; entries whose sanitized
/// name is empty are skipped, and directory entries carry no bytes.
pub open spec fn spec_plan(entries: Seq<(Seq<char>, bool, Seq<u8>)>, dir: Seq<char>) -> Seq<
    (Seq<char>, bool, Seq<u8>),
>
    decreases entries.len(),
{
    if entries.len() == 0 {
        Seq::empty()
    } else {
        let e = entries[0];
        let rest = spec_plan(entries.drop_first(), dir);
        match spec_entry_path(dir, e.0) {
            Option::None => rest,
            Option::Some(p) => seq![(p, e.1, if e.1 { Seq::empty() } else { e.2 })] + rest,
        }
    }
}

/// The file paths of a plan, in order, directories left out: what an
/// extraction reports as its result.
pub open spec fn spec_file_paths(plan: Seq<(Seq<char>, bool, Seq<u8>)>) -> Seq<Seq<char>>
    decreases plan.len(),
{
    if plan.len() == 0 {
        Seq::empty()
    } else if plan[0].1 {
        spec_file_paths(plan.drop_first())
    } else {
        seq![plan[0].0] + spec_file_paths(plan.drop_first())
    }
}

/// A path confined to `dir`: it extends `dir` with `'/'` and a non-empty
/// relative remainder whose components are all safe, so it cannot resolve
/// outside `dir`.
pub open spec fn confined_to(dir: Seq<char>, p: Seq<char>) -> bool {
    &&& p.len() > dir.len() + 1
    &&& p.subrange(0, dir.len() as int) == dir
    &&& p[dir.len() as int] == '/'
    &&& forall|k: int|
        0 <= k < spec_split(p.subrange(dir.len() + 1 as int, p.len() as int), '/').len()
            ==> safe_component(
            #[trigger] spec_split(p.subrange(dir.len() + 1 as int, p.len() as int), '/')[k],
        )
}

/// Every path a sanitized entry name yields is confined to the output
/// directory, whatever the archive encodes.
pub proof fn lemma_entry_path_confined(dir: Seq<char>, name: Seq<char>)
    ensures
        spec_entry_path(dir, name) matches Option::Some(p) ==> confined_to(dir, p),
{
    if spec_entry_path(dir, name) is Some {
        let parts = keep_safe(spec_split(name, '/'));
        let joined = spec_join(parts, '/');
        let p = dir + seq!['/'] + joined;
        lemma_split_pieces_free(name, '/');
        lemma_keep_safe_props(spec_split(name, '/'), '/');
        lemma_join_len(parts, '/');
        assert(p.subrange(0, dir.len() as int) =~= dir);
        assert(p[dir.len() as int] == '/');
        assert(p.subrange(dir.len() + 1 as int, p.len() as int) =~= joined);
        lemma_split_of_join(parts, '/');
    }
}

/// The join of non-empty pieces is non-empty.
proof fn lemma_join_len(parts: Seq<Seq<char>>, sep: char)
    requires
        forall|k: int| 0 <= k < parts.len() ==> parts[k].len() > 0,
    ensures
        parts.len() > 0 ==> spec_join(parts, sep).len() > 0,
    decreases parts.len(),
{
    if parts.len() > 1 {
        lemma_join_len(parts.drop_first(), sep);
    }
}

/// Every path in an extraction plan is confined to the output directory:
/// no entry, however adversarial its embedded name, is ever written outside
/// it.
pub proof fn lemma_plan_confined(entries: Seq<(Seq<char>, bool, Seq<u8>)>, dir: Seq<char>)
    ensures
        forall|i: int|
            0 <= i < spec_plan(entries, dir).len() ==> confined_to(
                dir,
                #[trigger] spec_plan(entries, dir)[i].0,
            ),
    decreases entries.len(),
{
    if entries.len() > 0 {
        lemma_plan_confined(entries.drop_first(), dir);
        lemma_entry_path_confined(dir, entries[0].0);
        let rest = spec_plan(entries.drop_first(), dir);
        assert forall|i: int|
            0 <= i < spec_plan(entries, dir).len() implies confined_to(
            dir,
            #[trigger] spec_plan(entries, dir)[i].0,
        ) by {
            match spec_entry_path(dir, entries[0].0) {
                Option::None => {
                    assert(spec_plan(entries, dir)[i] == rest[i]);
                },
                Option::Some(p) => {
                    if i > 0 {
                        assert(spec_plan(entries, dir)[i] == rest[i - 1]);
                    }
                },
            }
        }
    }
}

/// Every file path an extraction plan reports names a file write of the
/// plan.
pub proof fn lemma_file_paths_members(plan: Seq<(Seq<char>, bool, Seq<u8>)>)
    ensures
        forall|x: Seq<char>|
            #[trigger] spec_file_paths(plan).contains(x) ==> exists|i: int|
                0 <= i < plan.len() && plan[i].0 == x,
    decreases plan.len(),
{
    if plan.len() > 0 {
        lemma_file_paths_members(plan.drop_first());
        assert forall|x: Seq<char>| #[trigger]
            spec_file_paths(plan).contains(x) implies exists|i: int|
            0 <= i < plan.len() && plan[i].0 == x by {
            let fps = spec_file_paths(plan);
            let k = choose|k: int| 0 <= k < fps.len() && fps[k] == x;
            let rest = spec_file_paths(plan.drop_first());
            if !plan[0].1 && k == 0 {
                assert(plan[0].0 == x);
            } else {
                if plan[0].1 {
                    assert(rest[k] == x);
                } else {
                    assert(rest[k - 1] == x);
                }
                assert(rest.contains(x));
                let i = choose|i: int| 0 <= i < plan.drop_first().len() && plan.drop_first()[i].0
                    == x;
                assert(plan[i + 1].0 == x);
            }
        }
    }
}

/// Splits an entry name on `'/'` and keeps its safe components, as
/// `keep_safe` of `spec_split` describes.
#[verifier::loop_isolation(false)]
pub fn sanitize_entry_name(name: &str) -> (parts: Vec<String>)
    ensures
        parts@.map_values(|p: String| p@) == keep_safe(spec_split(name@, '/')),
{
    let pieces = split_on_slash(name);
    let ghost piece_views = pieces@.map_values(|p: String| p@);
    let mut parts: Vec<String> = Vec::new();
    let mut i: usize = 0;
    proof {
        assert(piece_views.skip(0) =~= piece_views);
        assert(parts@.map_values(|p: String| p@) =~= Seq::<Seq<char>>::empty());
        assert(Seq::<Seq<char>>::empty() + keep_safe(piece_views) =~= keep_safe(piece_views));
    }
    while i < pieces.len()
        invariant
            i <= pieces@.len(),
            piece_views == pieces@.map_values(|p: String| p@),
            parts@.map_values(|p: String| p@) + keep_safe(piece_views.skip(i as int)) == keep_safe(
                piece_views,
            ),
        decreases pieces@.len() - i,
    {
        proof {
            assert(piece_views.skip(i as int)[0] == piece_views[i as int]);
            assert(piece_views.skip(i as int).drop_first() =~= piece_views.skip(i as int + 1));
        }
        let piece = &pieces[i];
        let keep = piece.as_str().unicode_len() > 0 && !eq_exact(piece.as_str(), ".")
            && !eq_exact(piece.as_str(), "..");
        proof {
            reveal_strlit(".");
            reveal_strlit("..");
        }
        if keep {
            parts.push(piece.clone());
            proof {
                assert(parts@.map_values(|p: String| p@) =~= parts@.map_values(
                    |p: String| p@,
                ).drop_last().push(piece_views[i as int]));
            }
        }
        i = i + 1;
    }
    proof {
        assert(piece_views.skip(i as int) =~= Seq::<Seq<char>>::empty());
        assert(parts@.map_values(|p: String| p@) + Seq::<Seq<char>>::empty() =~= parts@.map_values(
            |p: String| p@,
        ));
    }
    parts
}

/// Splits a string on `'/'`, as `spec_split` describes.
#[verifier::loop_isolation(false)]
pub fn split_on_slash(s: &str) -> (pieces: Vec<String>)
    ensures
        pieces@.map_values(|p: String| p@) == spec_split(s@, '/'),
{
    let len = s.unicode_len();
    let mut pieces: Vec<String> = Vec::new();
    let mut start: usize = 0;
    let mut i: usize = 0;
    proof {
        assert(s@.skip(0) =~= s@);
        assert(pieces@.map_values(|p: String| p@) =~= Seq::<Seq<char>>::empty());
    }
    while i < len
        invariant
            start <= i <= len,
            len == s@.len(),
            forall|j: int| start <= j < i ==> s@[j] != '/',
            pieces@.map_values(|p: String| p@) + spec_split(s@.skip(start as int), '/')
                =~= spec_split(s@, '/'),
        decreases len - i,
    {
        if s.get_char(i) == '/' {
            let piece = s.substring_char(start, i);
            proof {
                let tail = s@.skip(start as int);
                assert(!piece@.contains('/')) by {
                    if piece@.contains('/') {
                        let j = choose|j: int| 0 <= j < piece@.len() && piece@[j] == '/';
                        assert(s@[start + j] == '/');
                    }
                }
                assert(tail =~= piece@ + seq!['/'] + s@.skip(i as int + 1));
                lemma_split_step(piece@, s@.skip(i as int + 1), '/');
                assert(pieces@.map_values(|p: String| p@).push(piece@) =~= pieces@.map_values(
                    |p: String| p@,
                ) + seq![piece@]);
            }
            pieces.push(piece.to_owned());
            proof {
                assert(pieces@.map_values(|p: String| p@) =~= pieces@.map_values(
                    |p: String| p@,
                ).drop_last().push(piece@));
            }
            start = i + 1;
        }
        i = i + 1;
    }
    let piece = s.substring_char(start, len);
    proof {
        assert(piece@ =~= s@.skip(start as int));
        assert(!piece@.contains('/')) by {
            if piece@.contains('/') {
                let j = choose|j: int| 0 <= j < piece@.len() && piece@[j] == '/';
                assert(s@[start + j] == '/');
            }
        }
        lemma_split_single(piece@, '/');
        assert(pieces@.map_values(|p: String| p@).push(piece@) =~= pieces@.map_values(
            |p: String| p@,
        ) + seq![piece@]);
    }
    pieces.push(piece.to_owned());
    proof {
        assert(pieces@.map_values(|p: String| p@) =~= pieces@.map_values(
            |p: String| p@,
        ).drop_last().push(piece@));
    }
    pieces
}

/// Joins sanitized components under the output directory:
/// `dir + '/' + parts joined with '/'`.
#[verifier::loop_isolation(false)]
pub fn join_under(dir: &str, parts: &Vec<String>) -> (p: String)
    requires
        parts@.len() > 0,
    ensures
        p@ == dir@ + seq!['/'] + spec_join(parts@.map_values(|q: String| q@), '/'),
{
    let ghost part_views = parts@.map_values(|q: String| q@);
    let mut p = dir.to_owned();
    p.append("/");
    proof {
        reveal_strlit("/");
        assert("/"@ =~= seq!['/']);
    }
    let mut i: usize = 0;
    p.append(parts[0].as_str());
    proof {
        assert(part_views.skip(0) =~= part_views);
        lemma_join_prefix(part_views, 0);
        assert(spec_join(part_views.skip(0), '/') == spec_join(part_views, '/'));
        assert(p@ + join_tail(part_views, 1) =~= dir@ + seq!['/'] + spec_join(part_views, '/'));
    }
    i = 1;
    while i < parts.len()
        invariant
            1 <= i <= parts@.len(),
            part_views == parts@.map_values(|q: String| q@),
            p@ + join_tail(part_views, i as int) == dir@ + seq!['/'] + spec_join(part_views, '/'),
        decreases parts@.len() - i,
    {
        p.append("/");
        p.append(parts[i].as_str());
        proof {
            reveal_strlit("/");
            assert("/"@ =~= seq!['/']);
            assert(join_tail(part_views, i as int) =~= seq!['/'] + part_views[i as int]
                + join_tail(part_views, i as int + 1));
        }
        i = i + 1;
    }
    proof {
        assert(join_tail(part_views, i as int) =~= Seq::<char>::empty());
        assert(p@ + Seq::<char>::empty() =~= p@);
    }
    p
}

/// The suffix of a join after the first `i` pieces: `'/' + piece` for each
/// remaining piece.
pub open spec fn join_tail(parts: Seq<Seq<char>>, i: int) -> Seq<char>
    decreases parts.len() - i,
{
    if i < 0 || i >= parts.len() {
        Seq::empty()
    } else {
        seq!['/'] + parts[i] + join_tail(parts, i + 1)
    }
}

proof fn lemma_join_prefix(parts: Seq<Seq<char>>, i: int)
    requires
        0 <= i < parts.len(),
    ensures
        spec_join(parts.skip(i), '/') == parts[i] + join_tail(parts, i + 1),
    decreases parts.len() - i,
{
    let tail = parts.skip(i);
    if i == parts.len() - 1 {
        assert(tail =~= seq![parts[i]]);
        assert(parts[i] + join_tail(parts, i + 1) =~= parts[i]);
    } else {
        lemma_join_prefix(parts, i + 1);
        assert(tail.drop_first() =~= parts.skip(i + 1));
        assert(tail[0] == parts[i]);
        assert(spec_join(tail, '/') == tail[0] + seq!['/'] + spec_join(tail.drop_first(), '/'));
        assert(parts[i] + seq!['/'] + (parts[i + 1] + join_tail(parts, i + 2)) =~= parts[i]
            + join_tail(parts, i + 1));
    }
}

/// Plans the extraction of `entries` into `output_dir`, as `spec_plan`
/// describes: each entry's sanitized path in entry order, directories to
/// create and files to write.
#[verifier::loop_isolation(false)]
pub fn plan_zip_extraction(entries: &Vec<ZipEntry>, output_dir: &str) -> (plan: Vec<FsWrite>)
    ensures
        plan@.map_values(|w: FsWrite| w.view_triple()) == spec_plan(
            entries@.map_values(|e: ZipEntry| e@),
            output_dir@,
        ),
{
    let ghost entry_views = entries@.map_values(|e: ZipEntry| e@);
    let mut plan: Vec<FsWrite> = Vec::new();
    let mut i: usize = 0;
    proof {
        assert(entry_views.skip(0) =~= entry_views);
        assert(plan@.map_values(|w: FsWrite| w.view_triple()) =~= Seq::<
            (Seq<char>, bool, Seq<u8>),
        >::empty());
        assert(Seq::<(Seq<char>, bool, Seq<u8>)>::empty() + spec_plan(entry_views, output_dir@)
            =~= spec_plan(entry_views, output_dir@));
    }
    while i < entries.len()
        invariant
            i <= entries@.len(),
            entry_views == entries@.map_values(|e: ZipEntry| e@),
            plan@.map_values(|w: FsWrite| w.view_triple()) + spec_plan(
                entry_views.skip(i as int),
                output_dir@,
            ) == spec_plan(entry_views, output_dir@),
        decreases entries@.len() - i,
    {
        proof {
            assert(entry_views.skip(i as int)[0] == entry_views[i as int]);
            assert(entry_views.skip(i as int).drop_first() =~= entry_views.skip(i as int + 1));
        }
        let entry = &entries[i];
        let parts = sanitize_entry_name(entry.name.as_str());
        if parts.len() > 0 {
            let path = join_under(output_dir, &parts);
            let w = if entry.is_dir {
                FsWrite::Dir { path }
            } else {
                FsWrite::File { path, data: entry.data.clone() }
            };
            proof {
                assert(spec_entry_path(output_dir@, entry_views[i as int].0) matches Option::Some(
                    q,
                ) && q == w.view_triple().0);
            }
            plan.push(w);
            proof {
                assert(plan@.map_values(|w: FsWrite| w.view_triple()) =~= plan@.map_values(
                    |w: FsWrite| w.view_triple(),
                ).drop_last().push(plan@.last().view_triple()));
            }
        }
        i = i + 1;
    }
    proof {
        assert(entry_views.skip(i as int) =~= Seq::<(Seq<char>, bool, Seq<u8>)>::empty());
        assert(plan@.map_values(|w: FsWrite| w.view_triple()) + Seq::<
            (Seq<char>, bool, Seq<u8>),
        >::empty() =~= plan@.map_values(|w: FsWrite| w.view_triple()));
    }
    plan
}

/// Lists the file paths of a plan in order, directories left out, as
/// `spec_file_paths` describes.
#[verifier::loop_isolation(false)]
pub fn planned_file_paths(plan: &Vec<FsWrite>) -> (paths: Vec<String>)
    ensures
        paths@.map_values(|p: String| p@) == spec_file_paths(
            plan@.map_values(|w: FsWrite| w.view_triple()),
        ),
{
    let ghost plan_views = plan@.map_values(|w: FsWrite| w.view_triple());
    let mut paths: Vec<String> = Vec::new();
    let mut i: usize = 0;
    proof {
        assert(plan_views.skip(0) =~= plan_views);
        assert(paths@.map_values(|p: String| p@) =~= Seq::<Seq<char>>::empty());
        assert(Seq::<Seq<char>>::empty() + spec_file_paths(plan_views) =~= spec_file_paths(
            plan_views,
        ));
    }
    while i < plan.len()
        invariant
            i <= plan@.len(),
            plan_views == plan@.map_values(|w: FsWrite| w.view_triple()),
            paths@.map_values(|p: String| p@) + spec_file_paths(plan_views.skip(i as int))
                == spec_file_paths(plan_views),
        decreases plan@.len() - i,
    {
        proof {
            assert(plan_views.skip(i as int)[0] == plan_views[i as int]);
            assert(plan_views.skip(i as int).drop_first() =~= plan_views.skip(i as int + 1));
        }
        match &plan[i] {
            FsWrite::Dir { path } => {},
            FsWrite::File { path, data } => {
                paths.push(path.clone());
                proof {
                    assert(paths@.map_values(|p: String| p@) =~= paths@.map_values(
                        |p: String| p@,
                    ).drop_last().push(plan_views[i as int].0));
                }
            },
        }
        i = i + 1;
    }
    proof {
        assert(plan_views.skip(i as int) =~= Seq::<(Seq<char>, bool, Seq<u8>)>::empty());
        assert(paths@.map_values(|p: String| p@) + Seq::<Seq<char>>::empty() =~= paths@.map_values(
            |p: String| p@,
        ));
    }
    paths
}

} // verus!
