//! Discovery: which of the files found under the input paths are candidates
//! for renaming. A file is a candidate when its content, not its name, says
//! that it is an image.

use crate::text::{begins_with, opt_text, starts_with, texts};
use vstd::prelude::*;
use vstd::slice::slice_subrange;

verus! {

/// How many bytes at the head of a file are looked at to tell what it holds.
pub const HEAD_LEN: usize = 4096;

/// The media type that the `infer` crate detects from the first bytes of a
/// file; `None` where it recognises none.
pub uninterp spec fn sniffed_mime(head: Seq<u8>) -> Option<Seq<char>>;

/// The bytes that are looked at: the first `HEAD_LEN`, or all where there
/// are fewer.
pub open spec fn head_of(bytes: Seq<u8>) -> Seq<u8> {
    if bytes.len() <= HEAD_LEN {
        bytes
    } else {
        bytes.take(HEAD_LEN as int)
    }
}

/// The bytes are the beginning of an image, going by their head alone.
pub open spec fn is_image(bytes: Seq<u8>) -> bool {
    sniffed_mime(head_of(bytes)) matches Some(mime) && begins_with(mime, "image/"@)
}

/// Calls `infer::Infer::get` with the default matchers and takes the media
/// type of the match with `Type::mime_type`. Trusted: the result is the text
/// named by `sniffed_mime` for these bytes, and `None` where nothing matches.
/// One of the matchers calls itself once for every few bytes of certain
/// input, so only a head of bounded length is handed over.
#[verifier::external_body]
fn sniff_mime(head: &[u8]) -> (r: Option<String>)
    requires
        head@.len() <= HEAD_LEN,
    ensures
        opt_text(r) == sniffed_mime(head@),
{
    infer::Infer::new().get(head).map(|kind| kind.mime_type().to_string())
}

/// Whether a media type is that of an image.
pub fn is_image_type(mime: &str) -> (b: bool)
    ensures
        b == begins_with(mime@, "image/"@),
{
    starts_with(mime, "image/")
}

/// Whether the bytes of a file are those of an image. No more than the
/// first `HEAD_LEN` bytes are looked at.
pub fn is_image_file(bytes: &[u8]) -> (b: bool)
    ensures
        b == is_image(bytes@),
{
    let head = if bytes.len() <= HEAD_LEN {
        bytes
    } else {
        slice_subrange(bytes, 0, HEAD_LEN)
    };
    match sniff_mime(head) {
        Some(mime) => is_image_type(mime.as_str()),
        None => false,
    }
}

/// A regular file and the bytes at its head, where they could be read.
pub struct Sample {
    /// The path of the file.
    pub path: String,
    /// The first bytes of the file; `None` where the file could not be read.
    pub head: Option<Vec<u8>>,
}

/// What was found at one input path.
pub enum Finding {
    /// A regular file.
    File(Sample),
    /// A directory, with the regular files under it in the order of the walk.
    Directory(Vec<Sample>),
    /// Neither a file nor a directory.
    Neither(String),
}

/// The outcome of discovery.
pub struct Discovery {
    /// The files to rename, in the order in which they were found.
    pub candidates: Vec<String>,
    /// The input paths that are neither a file nor a directory.
    pub rejected: Vec<String>,
}

/// The file could be read and holds an image.
pub open spec fn sample_is_image(sample: Sample) -> bool {
    sample.head matches Some(head) && is_image(head@)
}

/// The paths of the images among some files, in the order of the files.
pub open spec fn images_among(files: Seq<Sample>) -> Seq<Seq<char>> {
    files.filter(|s: Sample| sample_is_image(s)).map_values(|s: Sample| s.path@)
}

/// The candidates that one finding contributes.
pub open spec fn images_of(finding: Finding) -> Seq<Seq<char>> {
    match finding {
        Finding::File(sample) => if sample_is_image(sample) {
            seq![sample.path@]
        } else {
            Seq::empty()
        },
        Finding::Directory(files) => images_among(files@),
        Finding::Neither(_) => Seq::empty(),
    }
}

/// The input path that one finding rejects, if it rejects one.
pub open spec fn rejected_by(finding: Finding) -> Seq<Seq<char>> {
    match finding {
        Finding::Neither(path) => seq![path@],
        _ => Seq::empty(),
    }
}

/// The candidates of all findings: those of each finding, in the order of the
/// findings. A file that is found twice is listed twice.
pub open spec fn candidates_of(findings: Seq<Finding>) -> Seq<Seq<char>>
    decreases findings.len(),
{
    if findings.len() == 0 {
        Seq::empty()
    } else {
        candidates_of(findings.drop_last()) + images_of(findings.last())
    }
}

/// The input paths that are neither a file nor a directory, in input order.
pub open spec fn rejected_of(findings: Seq<Finding>) -> Seq<Seq<char>>
    decreases findings.len(),
{
    if findings.len() == 0 {
        Seq::empty()
    } else {
        rejected_of(findings.drop_last()) + rejected_by(findings.last())
    }
}

/// Whether a sample is an image.
fn sample_holds_image(sample: &Sample) -> (b: bool)
    ensures
        b == sample_is_image(*sample),
{
    match &sample.head {
        Some(head) => is_image_file(head.as_slice()),
        None => false,
    }
}

/// Appends the paths of the images among `files` to `out`.
fn collect_images(files: &Vec<Sample>, out: &mut Vec<String>)
    ensures
        texts(final(out)@) == texts(old(out)@) + images_among(files@),
{
    let ghost before = texts(out@);
    let ghost pred = |s: Sample| sample_is_image(s);
    let mut i: usize = 0;
    assert(files@.take(0).filter(pred) =~= Seq::<Sample>::empty()) by {
        reveal(Seq::filter);
    }
    assert(texts(out@) =~= before + images_among(files@.take(0)));
    while i < files.len()
        invariant
            i <= files.len(),
            pred == (|s: Sample| sample_is_image(s)),
            texts(out@) == before + images_among(files@.take(i as int)),
        decreases files.len() - i,
    {
        proof {
            let head = files@.take(i as int);
            assert(files@.take(i + 1) =~= head.push(files[i as int]));
            head.lemma_filter_push(files[i as int], pred);
        }
        let ghost was = out@;
        if sample_holds_image(&files[i]) {
            out.push(files[i].path.clone());
            assert(texts(out@) =~= texts(was).push(files[i as int].path@));
            assert(images_among(files@.take(i + 1)) =~= images_among(files@.take(i as int)).push(
                files[i as int].path@,
            ));
        }
        i += 1;
    }
    assert(files@.take(i as int) =~= files@);
}

/// Sorts out what was found at the input paths: the images among the files,
/// and among the files under the directories, become candidates in the order
/// in which they were found; the paths that are neither are rejected.
pub fn discover(findings: &Vec<Finding>) -> (found: Discovery)
    ensures
        texts(found.candidates@) == candidates_of(findings@),
        texts(found.rejected@) == rejected_of(findings@),
{
    let mut candidates: Vec<String> = Vec::new();
    let mut rejected: Vec<String> = Vec::new();
    let mut i: usize = 0;
    assert(texts(candidates@) =~= candidates_of(findings@.take(0)));
    assert(texts(rejected@) =~= rejected_of(findings@.take(0)));
    while i < findings.len()
        invariant
            i <= findings.len(),
            texts(candidates@) == candidates_of(findings@.take(i as int)),
            texts(rejected@) == rejected_of(findings@.take(i as int)),
        decreases findings.len() - i,
    {
        proof {
            let next = findings@.take(i + 1);
            assert(next.drop_last() =~= findings@.take(i as int));
            assert(next.last() == findings[i as int]);
        }
        let ghost had = candidates@;
        let ghost out = rejected@;
        match &findings[i] {
            Finding::File(sample) => {
                if sample_holds_image(sample) {
                    candidates.push(sample.path.clone());
                    assert(texts(candidates@) =~= texts(had) + seq![sample.path@]);
                } else {
                    assert(texts(candidates@) =~= texts(had) + Seq::<Seq<char>>::empty());
                }
                assert(texts(rejected@) =~= texts(out) + Seq::<Seq<char>>::empty());
            },
            Finding::Directory(files) => {
                collect_images(files, &mut candidates);
                assert(texts(rejected@) =~= texts(out) + Seq::<Seq<char>>::empty());
            },
            Finding::Neither(path) => {
                rejected.push(path.clone());
                assert(texts(rejected@) =~= texts(out) + seq![path@]);
                assert(texts(candidates@) =~= texts(had) + Seq::<Seq<char>>::empty());
            },
        }
        i += 1;
    }
    assert(findings@.take(i as int) =~= findings@);
    Discovery { candidates, rejected }
}

} // verus!
