//! The indexer's pass over discovered files: each path with a recognized
//! media extension is upserted as `Pending`; the rest are skipped. Walking
//! the directory tree is left to the caller.

use crate::catalog::has_path;
use crate::catalog::upserted;
use crate::catalog::Catalog;
use crate::catalog::MediaFile;
use crate::catalog::Status;
use vstd::prelude::*;
use vstd::string::StrSliceExecFns;

verus! {

/// The recognized media extensions, dot included, in lower case: the
/// formats that the codec decodes.
pub open spec fn media_suffixes() -> Seq<Seq<char>> {
    seq![
        seq!['.', 'j', 'p', 'g'],
        seq!['.', 'j', 'p', 'e', 'g'],
        seq!['.', 'p', 'n', 'g'],
        seq!['.', 'w', 'e', 'b', 'p'],
    ]
}

/// `c` is the lower-case character `lower`, or its ASCII upper-case form.
pub open spec fn char_matches(c: char, lower: char) -> bool {
    c == lower || ('a' <= lower <= 'z' && c as u32 + 32 == lower as u32)
}

/// `path` ends with `suffix`, ASCII letters compared without case.
pub open spec fn ends_with_ci(path: Seq<char>, suffix: Seq<char>) -> bool {
    &&& suffix.len() <= path.len()
    &&& forall|i: int|
        0 <= i < suffix.len() ==> char_matches(
            #[trigger] path[path.len() - suffix.len() + i],
            suffix[i],
        )
}

/// Whether a path names a media file, by its extension.
pub open spec fn is_media(path: Seq<char>) -> bool {
    exists|k: int| 0 <= k < media_suffixes().len() && ends_with_ci(path, #[trigger] media_suffixes()[k])
}

/// Whether `path` is one of `paths`.
pub open spec fn listed(paths: Seq<String>, path: Seq<char>) -> bool {
    exists|k: int| 0 <= k < paths.len() && (#[trigger] paths[k])@ == path
}

/// A row that an indexing pass at `now` added for one of `paths`: a media
/// path of the list, `Pending`, first seen at `now`.
pub open spec fn added_row(row: MediaFile, paths: Seq<String>, now: u64) -> bool {
    &&& is_media(row.absolute_path@)
    &&& listed(paths, row.absolute_path@)
    &&& row.status == Status::Pending
    &&& row.discovered_at == now
}

/// How many of `paths` name media files.
pub open spec fn media_count(paths: Seq<String>) -> nat
    decreases paths.len(),
{
    if paths.len() == 0 {
        0
    } else {
        media_count(paths.drop_last()) + if is_media(paths.last()@) { 1nat } else { 0nat }
    }
}

fn path_ends_with(path: &str, suffix: &str) -> (r: bool)
    ensures
        r == ends_with_ci(path@, suffix@),
{
    let n = path.unicode_len();
    let m = suffix.unicode_len();
    if m > n {
        return false;
    }
    let mut i: usize = 0;
    while i < m
        invariant
            n == path@.len(),
            m == suffix@.len(),
            m <= n,
            0 <= i <= m,
            forall|j: int| 0 <= j < i ==> char_matches(#[trigger] path@[n - m + j], suffix@[j]),
        decreases m - i,
    {
        let c = path.get_char(n - m + i);
        let s = suffix.get_char(i);
        let matches = c == s || ('a' <= s && s <= 'z' && (c as u32) + 32 == s as u32);
        if !matches {
            assert(!char_matches(path@[n - m + i], suffix@[i as int]));
            return false;
        }
        i = i + 1;
    }
    true
}

/// Whether `path` has a recognized media extension (jpg, jpeg, png, webp),
/// in any ASCII case.
pub fn is_media_path(path: &str) -> (r: bool)
    ensures
        r == is_media(path@),
{
    let suffixes = [".jpg", ".jpeg", ".png", ".webp"];
    proof {
        reveal_strlit(".jpg");
        reveal_strlit(".jpeg");
        reveal_strlit(".png");
        reveal_strlit(".webp");
        assert(suffixes@.len() == media_suffixes().len());
        assert forall|k: int| 0 <= k < 4 implies (#[trigger] suffixes@[k])@ == media_suffixes()[k] by {
            assert(suffixes@[0]@ =~= media_suffixes()[0]);
            assert(suffixes@[1]@ =~= media_suffixes()[1]);
            assert(suffixes@[2]@ =~= media_suffixes()[2]);
            assert(suffixes@[3]@ =~= media_suffixes()[3]);
        }
    }
    let mut k: usize = 0;
    while k < 4
        invariant
            0 <= k <= 4,
            suffixes@.len() == 4,
            forall|j: int| 0 <= j < 4 ==> (#[trigger] suffixes@[j])@ == media_suffixes()[j],
            forall|j: int| 0 <= j < k ==> !ends_with_ci(path@, #[trigger] media_suffixes()[j]),
        decreases 4 - k,
    {
        if path_ends_with(path, suffixes[k]) {
            return true;
        }
        k = k + 1;
    }
    false
}

/// The kind of a file's contents, as its extension names it.
#[derive(Clone, Copy, Debug, PartialEq, Eq, Structural)]
pub enum MediaType {
    Jpeg,
    Png,
    Webp,
    /// No recognized extension.
    Unknown,
}

/// The media type that the extension of `path` names.
pub open spec fn media_type_of(path: Seq<char>) -> MediaType {
    if ends_with_ci(path, media_suffixes()[0]) || ends_with_ci(path, media_suffixes()[1]) {
        MediaType::Jpeg
    } else if ends_with_ci(path, media_suffixes()[2]) {
        MediaType::Png
    } else if ends_with_ci(path, media_suffixes()[3]) {
        MediaType::Webp
    } else {
        MediaType::Unknown
    }
}

/// The MIME text of each media type.
pub open spec fn mime_text(t: MediaType) -> Seq<char> {
    match t {
        MediaType::Jpeg => seq!['i', 'm', 'a', 'g', 'e', '/', 'j', 'p', 'e', 'g'],
        MediaType::Png => seq!['i', 'm', 'a', 'g', 'e', '/', 'p', 'n', 'g'],
        MediaType::Webp => seq!['i', 'm', 'a', 'g', 'e', '/', 'w', 'e', 'b', 'p'],
        MediaType::Unknown => seq!['a', 'p', 'p', 'l', 'i', 'c', 'a', 't', 'i', 'o', 'n', '/', 'o', 'c', 't', 'e', 't', '-', 's', 't', 'r', 'e', 'a', 'm'],
    }
}

impl MediaType {
    /// The MIME type to serve such contents with.
    pub fn mime(&self) -> (r: &'static str)
        ensures
            r@ == mime_text(*self),
    {
        proof {
            reveal_strlit("image/jpeg");
            reveal_strlit("image/png");
            reveal_strlit("image/webp");
            reveal_strlit("application/octet-stream");
        }
        match self {
            MediaType::Jpeg => "image/jpeg",
            MediaType::Png => "image/png",
            MediaType::Webp => "image/webp",
            MediaType::Unknown => "application/octet-stream",
        }
    }
}

/// The media type of the file at `path`, by its extension in any ASCII case.
pub fn media_type(path: &str) -> (r: MediaType)
    ensures
        r == media_type_of(path@),
{
    proof {
        reveal_strlit(".jpg");
        reveal_strlit(".jpeg");
        reveal_strlit(".png");
        reveal_strlit(".webp");
        assert(".jpg"@ =~= media_suffixes()[0]);
        assert(".jpeg"@ =~= media_suffixes()[1]);
        assert(".png"@ =~= media_suffixes()[2]);
        assert(".webp"@ =~= media_suffixes()[3]);
    }
    if path_ends_with(path, ".jpg") || path_ends_with(path, ".jpeg") {
        MediaType::Jpeg
    } else if path_ends_with(path, ".png") {
        MediaType::Png
    } else if path_ends_with(path, ".webp") {
        MediaType::Webp
    } else {
        MediaType::Unknown
    }
}

/// What an indexing pass found.
#[derive(Clone, Copy, Debug, PartialEq, Eq, Structural)]
pub struct ScanSummary {
    /// Paths with a media extension, each upserted.
    pub discovered: usize,
    /// Paths without one, left out of the catalog.
    pub skipped: usize,
}

/// Upserts every media path of `paths` as `Pending`, in order, and skips the
/// others. Rows that existed before are left exactly as they were, so a
/// rescan never sends a `Ready` or `Failed` row back to `Pending`; every new
/// row is a `Pending` row for a media path of the list.
pub fn index_paths(catalog: &mut Catalog, paths: &Vec<String>, now: u64) -> (r: ScanSummary)
    requires
        old(catalog).wf(),
    ensures
        final(catalog).wf(),
        final(catalog)@.len() >= old(catalog)@.len(),
        final(catalog)@.subrange(0, old(catalog)@.len() as int) == old(catalog)@,
        forall|i: int|
            0 <= i < old(catalog)@.len() ==> (#[trigger] final(catalog)@[i]).status
                == old(catalog)@[i].status,
        forall|k: int|
            0 <= k < paths@.len() && is_media((#[trigger] paths@[k])@) ==> has_path(
                final(catalog)@,
                paths@[k]@,
            ),
        forall|i: int|
            old(catalog)@.len() <= i < final(catalog)@.len() ==> added_row(
                #[trigger] final(catalog)@[i],
                paths@,
                now,
            ),
        r.discovered == media_count(paths@),
        r.discovered + r.skipped == paths@.len(),
{
    let ghost first = catalog@;
    let mut discovered: usize = 0;
    let mut skipped: usize = 0;
    let mut k: usize = 0;
    while k < paths.len()
        invariant
            catalog.wf(),
            0 <= k <= paths@.len(),
            catalog@.len() >= first.len(),
            catalog@.subrange(0, first.len() as int) == first,
            forall|j: int|
                0 <= j < k && is_media((#[trigger] paths@[j])@) ==> has_path(catalog@, paths@[j]@),
            forall|i: int|
                first.len() <= i < catalog@.len() ==> added_row(
                    #[trigger] catalog@[i],
                    paths@,
                    now,
                ),
            discovered == media_count(paths@.subrange(0, k as int)),
            discovered + skipped == k,
        decreases paths@.len() - k,
    {
        let ghost before = catalog@;
        assert(paths@.subrange(0, k + 1).drop_last() =~= paths@.subrange(0, k as int));
        if is_media_path(paths[k].as_str()) {
            let id = catalog.upsert_pending(paths[k].as_str(), now);
            proof {
                assert(upserted(before, catalog@, paths@[k as int]@, now, id));
                assert(catalog@.subrange(0, before.len() as int) =~= before);
                assert(catalog@.subrange(0, first.len() as int) =~= before.subrange(
                    0,
                    first.len() as int,
                ));
                assert forall|j: int|
                    0 <= j <= k && is_media((#[trigger] paths@[j])@) implies has_path(
                    catalog@,
                    paths@[j]@,
                ) by {
                    if j < k {
                        let w = choose|w: int|
                            0 <= w < before.len() && (#[trigger] before[w]).absolute_path@ == paths@[j]@;
                        assert(catalog@[w] == before[w]);
                    } else {
                        assert(catalog@[id as int].absolute_path@ == paths@[k as int]@);
                    }
                }
                assert forall|i: int|
                    first.len() <= i < catalog@.len() implies added_row(
                    #[trigger] catalog@[i],
                    paths@,
                    now,
                ) by {
                    if i < before.len() {
                        assert(catalog@[i] == before[i]);
                    } else {
                        assert(paths@[k as int]@ == catalog@[i].absolute_path@);
                    }
                }
            }
            discovered = discovered + 1;
        } else {
            skipped = skipped + 1;
        }
        k = k + 1;
    }
    proof {
        assert(paths@.subrange(0, k as int) =~= paths@);
        assert forall|i: int| 0 <= i < first.len() implies (#[trigger] catalog@[i]).status
            == first[i].status by {
            assert(catalog@.subrange(0, first.len() as int)[i] == catalog@[i]);
        }
    }
    ScanSummary { discovered, skipped }
}

} // verus!
