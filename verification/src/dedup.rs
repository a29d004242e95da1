//! The reduction of a capture sequence: which frames stay and which go.
use crate::fingerprint::{
    calculate_phash, phash_bits, phash_outcome, FailureCause, FingerprintError, FingerprintResult,
};
use crate::similarity::{hamming_distance, is_similar, similar};
use crate::theorems::{
    lemma_failed_path_is_kept, lemma_frames_reduce_as_images, lemma_split_is_complete,
};
use vstd::prelude::*;

verus! {

/// One captured frame as it was read: its path, and the bytes of the file or
/// the reader's message where the file could not be read.
#[derive(Debug)]
pub struct CapturedImage {
    pub path: String,
    pub contents: Result<Vec<u8>, String>,
}

/// One captured frame after fingerprinting.
#[derive(Debug)]
pub struct FingerprintedFrame {
    pub path: String,
    pub fingerprint: FingerprintResult,
}

/// The paths of the frames, in order.
pub open spec fn paths_of(frames: Seq<FingerprintedFrame>) -> Seq<String> {
    Seq::new(frames.len(), |i: int| frames[i].path)
}

/// The fingerprint results of the frames, in order.
pub open spec fn results_of(frames: Seq<FingerprintedFrame>) -> Seq<FingerprintResult> {
    Seq::new(frames.len(), |i: int| frames[i].fingerprint)
}

/// Whether the frames at positions `i - 1` and `i` are a duplicate pair: both
/// have a fingerprint, and the two fingerprints are similar. A pair with a
/// failed frame is never one.
pub open spec fn duplicate_pair(results: Seq<FingerprintResult>, i: int, threshold: u32) -> bool {
    &&& 0 < i < results.len()
    &&& results[i] matches Ok(current)
    &&& results[i - 1] matches Ok(previous)
    &&& similar(current, previous, threshold)
}

/// Whether the frame at position `i` is kept: it is, unless it and its
/// successor are a duplicate pair.
pub open spec fn kept_at(results: Seq<FingerprintResult>, i: int, threshold: u32) -> bool {
    !duplicate_pair(results, i + 1, threshold)
}

/// The keep flag of every position.
pub open spec fn keep_flags(results: Seq<FingerprintResult>, threshold: u32) -> Seq<bool> {
    Seq::new(results.len(), |i: int| kept_at(results, i, threshold))
}

/// The items whose flag is `wanted`, in the order in which they stand in
/// `items`.
pub open spec fn select<T>(items: Seq<T>, flags: Seq<bool>, wanted: bool) -> Seq<T>
    recommends
        items.len() == flags.len(),
    decreases items.len(),
{
    if items.len() == 0 {
        Seq::empty()
    } else {
        let rest = select(items.drop_last(), flags.drop_last(), wanted);
        if flags.last() == wanted {
            rest.push(items.last())
        } else {
            rest
        }
    }
}

/// The paths of the frames that are kept, in order.
pub open spec fn kept_paths(frames: Seq<FingerprintedFrame>, threshold: u32) -> Seq<String> {
    select(paths_of(frames), keep_flags(results_of(frames), threshold), true)
}

/// The paths of the frames that are removed, in order.
pub open spec fn removed_paths(frames: Seq<FingerprintedFrame>, threshold: u32) -> Seq<String> {
    select(paths_of(frames), keep_flags(results_of(frames), threshold), false)
}

/// What fingerprinting makes of an image that could not be read: the failure
/// under the image's path, with the reader's message.
pub open spec fn unreadable(image: CapturedImage) -> FingerprintResult
    recommends
        image.contents is Err,
{
    Err(
        FingerprintError {
            path: image.path,
            cause: FailureCause::Unreadable(image.contents->Err_0),
        },
    )
}

/// Whether `frame` is what fingerprinting makes of `image`: it has the
/// image's path; where the image could not be read it holds that failure; and
/// where the image was read it holds what fingerprinting the image's bytes
/// under the image's path gives.
pub open spec fn fingerprint_of(image: CapturedImage, frame: FingerprintedFrame) -> bool {
    &&& frame.path == image.path
    &&& image.contents is Err ==> frame.fingerprint == unreadable(image)
    &&& image.contents matches Ok(contents) ==> phash_outcome(
        image.path@,
        contents@,
        frame.fingerprint,
    )
}

/// Whether `frames` are what fingerprinting makes of `images`: one frame per
/// image, in order.
pub open spec fn fingerprinted(images: Seq<CapturedImage>, frames: Seq<FingerprintedFrame>) -> bool {
    &&& frames.len() == images.len()
    &&& forall|i: int| 0 <= i < images.len() ==> fingerprint_of(images[i], #[trigger] frames[i])
}

/// The fingerprint that belongs to a captured image: that of its file, where
/// the file was read, can be decoded and has a raster that can be
/// fingerprinted; else none.
pub open spec fn fingerprint_bits(image: CapturedImage) -> Option<Seq<u8>> {
    match image.contents {
        Ok(contents) => phash_bits(image.path@, contents@),
        Err(_) => None,
    }
}

/// The paths of the images, in order.
pub open spec fn image_paths(images: Seq<CapturedImage>) -> Seq<String> {
    Seq::new(images.len(), |i: int| images[i].path)
}

/// Whether the images at positions `i - 1` and `i` are a duplicate pair: both
/// have a fingerprint, and the two fingerprints differ in at most `threshold`
/// bits.
pub open spec fn duplicate_images(images: Seq<CapturedImage>, i: int, threshold: u32) -> bool {
    &&& 0 < i < images.len()
    &&& fingerprint_bits(images[i]) matches Some(current)
    &&& fingerprint_bits(images[i - 1]) matches Some(previous)
    &&& hamming_distance(current, previous) <= threshold
}

/// The keep flag of every image: an image is kept unless it and its successor
/// are a duplicate pair.
pub open spec fn image_flags(images: Seq<CapturedImage>, threshold: u32) -> Seq<bool> {
    Seq::new(images.len(), |i: int| !duplicate_images(images, i + 1, threshold))
}

/// The paths of the images that are kept, in order.
pub open spec fn kept_images(images: Seq<CapturedImage>, threshold: u32) -> Seq<String> {
    select(image_paths(images), image_flags(images, threshold), true)
}

/// The paths of the images that are removed, in order.
pub open spec fn removed_images(images: Seq<CapturedImage>, threshold: u32) -> Seq<String> {
    select(image_paths(images), image_flags(images, threshold), false)
}

/// Computes the keep flag of every frame in one forward pass: each frame is
/// compared with its predecessor, and where the two are a duplicate pair the
/// predecessor's flag is cleared.
pub fn mark_kept(frames: &Vec<FingerprintedFrame>, threshold: u32) -> (keep: Vec<bool>)
    ensures
        keep@ == keep_flags(results_of(frames@), threshold),
{
    let total = frames.len();
    let ghost results = results_of(frames@);
    let mut keep: Vec<bool> = Vec::new();
    while keep.len() < total
        invariant
            keep.len() <= total,
            forall|j: int| 0 <= j < keep.len() ==> keep@[j],
        decreases total - keep.len(),
    {
        keep.push(true);
    }
    let mut i: usize = 1;
    while i < total
        invariant
            1 <= i,
            total == frames.len(),
            keep.len() == total,
            results == results_of(frames@),
            forall|j: int| 0 <= j < total && j + 1 < i ==> keep@[j] == kept_at(results, j, threshold),
            forall|j: int| 0 <= j < total && j + 1 >= i ==> keep@[j],
        decreases total - i,
    {
        let duplicate = match (&frames[i].fingerprint, &frames[i - 1].fingerprint) {
            (Ok(current), Ok(previous)) => is_similar(current, previous, threshold),
            _ => false,
        };
        assert(duplicate == duplicate_pair(results, i as int, threshold));
        if duplicate {
            keep.set(i - 1, false);
        }
        i += 1;
    }
    assert(keep@ =~= keep_flags(results, threshold));
    keep
}

/// Splits the paths of the frames by their flags, each side in capture order.
fn partition(frames: &Vec<FingerprintedFrame>, keep: &Vec<bool>) -> (parts: (
    Vec<String>,
    Vec<String>,
))
    requires
        keep.len() == frames.len(),
    ensures
        parts.0@ == select(paths_of(frames@), keep@, true),
        parts.1@ == select(paths_of(frames@), keep@, false),
{
    let ghost paths = paths_of(frames@);
    let mut kept: Vec<String> = Vec::new();
    let mut removed: Vec<String> = Vec::new();
    let mut i: usize = 0;
    while i < frames.len()
        invariant
            i <= frames.len(),
            keep.len() == frames.len(),
            paths == paths_of(frames@),
            kept@ == select(paths.take(i as int), keep@.take(i as int), true),
            removed@ == select(paths.take(i as int), keep@.take(i as int), false),
        decreases frames.len() - i,
    {
        let path = frames[i].path.clone();
        proof {
            assert(paths.take(i + 1).drop_last() =~= paths.take(i as int));
            assert(keep@.take(i + 1).drop_last() =~= keep@.take(i as int));
        }
        if keep[i] {
            kept.push(path);
        } else {
            removed.push(path);
        }
        i += 1;
    }
    proof {
        assert(paths.take(i as int) =~= paths);
        assert(keep@.take(i as int) =~= keep@);
    }
    (kept, removed)
}

/// Reduces fingerprinted frames: returns the paths to keep and the paths to
/// remove. Of two adjacent frames that are a duplicate pair the earlier one is
/// removed, so that of a run of duplicates only the last frame stays. A frame
/// without a fingerprint is kept, and so is the frame before it.
pub fn reduce(frames: &Vec<FingerprintedFrame>, threshold: u32) -> (parts: (
    Vec<String>,
    Vec<String>,
))
    ensures
        parts.0@ == kept_paths(frames@, threshold),
        parts.1@ == removed_paths(frames@, threshold),
        parts.0@.len() + parts.1@.len() == frames@.len(),
{
    let keep = mark_kept(frames, threshold);
    proof {
        lemma_split_is_complete(paths_of(frames@), keep@);
    }
    partition(frames, &keep)
}

/// Fingerprints one captured image. An image that could not be read gets the
/// failure that says so; one that was read gets what `calculate_phash` returns
/// for its path and bytes.
pub fn fingerprint_frame(image: &CapturedImage) -> (frame: FingerprintedFrame)
    ensures
        fingerprint_of(*image, frame),
{
    let fingerprint = match &image.contents {
        Ok(bytes) => calculate_phash(image.path.as_str(), bytes.as_slice()),
        Err(message) => Err(
            FingerprintError {
                path: image.path.clone(),
                cause: FailureCause::Unreadable(message.clone()),
            },
        ),
    };
    FingerprintedFrame { path: image.path.clone(), fingerprint }
}

/// Fingerprints every captured image, in order and each on its own.
pub fn fingerprint_all(images: &Vec<CapturedImage>) -> (frames: Vec<FingerprintedFrame>)
    ensures
        fingerprinted(images@, frames@),
{
    let mut frames: Vec<FingerprintedFrame> = Vec::new();
    let mut i: usize = 0;
    while i < images.len()
        invariant
            i <= images.len(),
            frames.len() == i,
            forall|j: int| 0 <= j < i ==> fingerprint_of(images@[j], #[trigger] frames@[j]),
        decreases images.len() - i,
    {
        let frame = fingerprint_frame(&images[i]);
        frames.push(frame);
        i += 1;
    }
    frames
}

/// Removes near-duplicate captures: fingerprints every image, reduces the
/// fingerprinted frames, and returns the paths to keep and the paths to remove,
/// each in capture order.
///
/// An image is removed exactly when it and the image after it both have a
/// fingerprint and the two fingerprints differ in at most `threshold` bits.
/// The call never fails: an image without a fingerprint is kept, and its
/// failure goes no further.
pub fn deduplicate_images(images: Vec<CapturedImage>, threshold: u32) -> (result: Result<
    (Vec<String>, Vec<String>),
    FingerprintError,
>)
    ensures
        result is Ok,
        result matches Ok(parts) ==> {
            &&& parts.0@ == kept_images(images@, threshold)
            &&& parts.1@ == removed_images(images@, threshold)
            &&& parts.0@.len() + parts.1@.len() == images@.len()
            &&& forall|i: int|
                0 <= i < images@.len() && fingerprint_bits(images@[i]) is None
                    ==> parts.0@.contains(#[trigger] images@[i].path)
        },
{
    if images.len() == 0 {
        proof {
            assert(kept_images(images@, threshold) =~= Seq::<String>::empty());
            assert(removed_images(images@, threshold) =~= Seq::<String>::empty());
        }
        return Ok((Vec::new(), Vec::new()));
    }
    let frames = fingerprint_all(&images);
    let parts = reduce(&frames, threshold);
    proof {
        lemma_frames_reduce_as_images(images@, frames@, threshold);
        assert forall|i: int|
            0 <= i < images@.len() && fingerprint_bits(images@[i]) is None implies parts.0@.contains(
            #[trigger] images@[i].path,
        ) by {
            assert(fingerprint_of(images@[i], frames@[i]));
            lemma_failed_path_is_kept(frames@, i, threshold);
        }
    }
    Ok(parts)
}

} // verus!
