//! What holds of every reduction, whatever the fingerprints are.
use crate::dedup::{
    duplicate_images, duplicate_pair, fingerprint_bits, fingerprint_of, fingerprinted, image_flags,
    image_paths, keep_flags, kept_at, kept_images, kept_paths, paths_of, removed_images,
    removed_paths, results_of, select, CapturedImage, FingerprintedFrame,
};
use crate::fingerprint::{decoded, phash_bits, FingerprintResult};
use vstd::prelude::*;

verus! {

/// Puts two sides of a split back together: walks the flags, and takes the
/// next item of `kept` where the flag is set and the next item of `removed`
/// where it is not.
pub open spec fn merge<T>(kept: Seq<T>, removed: Seq<T>, flags: Seq<bool>) -> Seq<T>
    decreases flags.len(),
{
    if flags.len() == 0 {
        Seq::empty()
    } else if flags.last() {
        merge(kept.drop_last(), removed, flags.drop_last()).push(kept.last())
    } else {
        merge(kept, removed.drop_last(), flags.drop_last()).push(removed.last())
    }
}

/// The positions whose flag is `wanted`, in increasing order.
pub open spec fn positions(flags: Seq<bool>, wanted: bool) -> Seq<int>
    decreases flags.len(),
{
    if flags.len() == 0 {
        Seq::empty()
    } else {
        let rest = positions(flags.drop_last(), wanted);
        if flags.last() == wanted {
            rest.push(flags.len() - 1)
        } else {
            rest
        }
    }
}

/// A split loses nothing and invents nothing: the two sides together have as
/// many items as the input, and merging them by the flags gives the input back.
pub proof fn lemma_split_is_complete<T>(items: Seq<T>, flags: Seq<bool>)
    requires
        items.len() == flags.len(),
    ensures
        select(items, flags, true).len() + select(items, flags, false).len() == items.len(),
        merge(select(items, flags, true), select(items, flags, false), flags) == items,
    decreases items.len(),
{
    if items.len() > 0 {
        let kept = select(items, flags, true);
        let removed = select(items, flags, false);
        let kept_before = select(items.drop_last(), flags.drop_last(), true);
        let removed_before = select(items.drop_last(), flags.drop_last(), false);
        lemma_split_is_complete(items.drop_last(), flags.drop_last());
        if flags.last() {
            assert(kept.drop_last() =~= kept_before);
        } else {
            assert(removed.drop_last() =~= removed_before);
        }
        assert(items.drop_last().push(items.last()) =~= items);
    }
}

/// The positions of one side of a split lie inside the input, carry the wanted
/// flag, increase strictly, and miss no position that carries the flag.
pub proof fn lemma_positions_increase(flags: Seq<bool>, wanted: bool)
    ensures
        forall|k: int|
            0 <= k < positions(flags, wanted).len() ==> {
                &&& 0 <= #[trigger] positions(flags, wanted)[k] < flags.len()
                &&& flags[positions(flags, wanted)[k]] == wanted
            },
        forall|j: int, k: int|
            0 <= j < k < positions(flags, wanted).len() ==> positions(flags, wanted)[j]
                < positions(flags, wanted)[k],
        forall|i: int|
            0 <= i < flags.len() && flags[i] == wanted ==> positions(flags, wanted).contains(i),
    decreases flags.len(),
{
    if flags.len() > 0 {
        let rest = positions(flags.drop_last(), wanted);
        let all = positions(flags, wanted);
        lemma_positions_increase(flags.drop_last(), wanted);
        assert forall|i: int| 0 <= i < flags.len() && flags[i] == wanted implies all.contains(
            i,
        ) by {
            if i < flags.len() - 1 {
                assert(flags.drop_last()[i] == wanted);
                assert(rest.contains(i));
                let k = choose|k: int| 0 <= k < rest.len() && rest[k] == i;
                assert(all[k] == i);
            } else {
                assert(all[all.len() - 1] == i);
            }
        }
    }
}

/// Each side of a split is the input read at that side's positions: it is a
/// subsequence of the input in the input's order.
pub proof fn lemma_split_keeps_order<T>(items: Seq<T>, flags: Seq<bool>, wanted: bool)
    requires
        items.len() == flags.len(),
    ensures
        select(items, flags, wanted).len() == positions(flags, wanted).len(),
        forall|k: int|
            0 <= k < positions(flags, wanted).len() ==> #[trigger] select(items, flags, wanted)[k]
                == items[positions(flags, wanted)[k]],
    decreases items.len(),
{
    if items.len() > 0 {
        lemma_split_keeps_order(items.drop_last(), flags.drop_last(), wanted);
        lemma_positions_increase(flags.drop_last(), wanted);
    }
}

/// Every position is on exactly one side of a split.
pub proof fn lemma_split_is_disjoint(flags: Seq<bool>, i: int)
    requires
        0 <= i < flags.len(),
    ensures
        positions(flags, true).contains(i) <==> flags[i],
        positions(flags, false).contains(i) <==> !flags[i],
{
    lemma_positions_increase(flags, true);
    lemma_positions_increase(flags, false);
}

/// A frame that could not be fingerprinted is kept, and so is the frame before
/// it; and the flag of no other frame depends on what the failed frame's
/// result is.
pub proof fn lemma_failure_is_kept(results: Seq<FingerprintResult>, i: int, threshold: u32)
    requires
        0 <= i < results.len(),
        results[i] is Err,
    ensures
        kept_at(results, i, threshold),
        kept_at(results, i - 1, threshold),
        forall|other: FingerprintResult, j: int|
            0 <= j < results.len() && j != i && j != i - 1 ==> #[trigger] kept_at(
                results.update(i, other),
                j,
                threshold,
            ) == kept_at(results, j, threshold),
{
}

/// The path of a frame that could not be fingerprinted is among the kept paths.
pub proof fn lemma_failed_path_is_kept(frames: Seq<FingerprintedFrame>, i: int, threshold: u32)
    requires
        0 <= i < frames.len(),
        frames[i].fingerprint is Err,
    ensures
        kept_paths(frames, threshold).contains(frames[i].path),
{
    let flags = keep_flags(results_of(frames), threshold);
    lemma_positions_increase(flags, true);
    lemma_split_keeps_order(paths_of(frames), flags, true);
    assert(flags[i]);
    let k = choose|k: int| 0 <= k < positions(flags, true).len() && positions(flags, true)[k] == i;
    assert(kept_paths(frames, threshold)[k] == frames[i].path);
}

/// The last frame is always kept.
pub proof fn lemma_last_is_kept(results: Seq<FingerprintResult>, threshold: u32)
    requires
        results.len() > 0,
    ensures
        kept_at(results, results.len() - 1, threshold),
{
}

/// Of a run of frames in which every frame and its successor are a duplicate
/// pair, only the last frame can be kept.
pub proof fn lemma_run_keeps_only_last(
    results: Seq<FingerprintResult>,
    first: int,
    last: int,
    threshold: u32,
)
    requires
        0 <= first <= last < results.len(),
        forall|i: int| first < i <= last ==> duplicate_pair(results, i, threshold),
    ensures
        forall|i: int| first <= i < last ==> !kept_at(results, i, threshold),
{
}

/// Where the flags of one split are cleared wherever those of another are, it
/// removes at least as many items.
proof fn lemma_more_cleared_more_removed<T>(items: Seq<T>, fewer: Seq<bool>, more: Seq<bool>)
    requires
        items.len() == fewer.len(),
        items.len() == more.len(),
        forall|i: int| 0 <= i < items.len() && !fewer[i] ==> !more[i],
    ensures
        select(items, fewer, false).len() <= select(items, more, false).len(),
    decreases items.len(),
{
    if items.len() > 0 {
        lemma_more_cleared_more_removed(items.drop_last(), fewer.drop_last(), more.drop_last());
    }
}

/// Raising the threshold never brings a removed frame back, so that the number
/// of removed frames never falls.
pub proof fn lemma_threshold_is_monotone(frames: Seq<FingerprintedFrame>, low: u32, high: u32)
    requires
        low <= high,
    ensures
        forall|i: int|
            0 <= i < frames.len() && !kept_at(results_of(frames), i, low) ==> !kept_at(
                results_of(frames),
                i,
                high,
            ),
        removed_paths(frames, low).len() <= removed_paths(frames, high).len(),
        kept_paths(frames, low).len() >= kept_paths(frames, high).len(),
{
    let results = results_of(frames);
    lemma_more_cleared_more_removed(
        paths_of(frames),
        keep_flags(results, low),
        keep_flags(results, high),
    );
    lemma_split_is_complete(paths_of(frames), keep_flags(results, low));
    lemma_split_is_complete(paths_of(frames), keep_flags(results, high));
}

/// Where every flag is set, a split keeps everything.
proof fn lemma_all_set_keeps_all<T>(items: Seq<T>, flags: Seq<bool>)
    requires
        items.len() == flags.len(),
        forall|i: int| 0 <= i < flags.len() ==> flags[i],
    ensures
        select(items, flags, true) == items,
        select(items, flags, false) == Seq::<T>::empty(),
    decreases items.len(),
{
    if items.len() > 0 {
        lemma_all_set_keeps_all(items.drop_last(), flags.drop_last());
        assert(items.drop_last().push(items.last()) =~= items);
    }
}

/// Frames among which no two neighbours are a duplicate pair are all kept, in
/// their order: reducing them changes nothing. This is the case in which
/// reducing the kept frames of an earlier reduction again is without effect;
/// in general two kept frames that a removed one stood between can be a
/// duplicate pair, so that a second reduction removes more.
pub proof fn lemma_distinct_neighbours_are_kept(frames: Seq<FingerprintedFrame>, threshold: u32)
    requires
        forall|i: int| 0 < i < frames.len() ==> !duplicate_pair(results_of(frames), i, threshold),
    ensures
        kept_paths(frames, threshold) == paths_of(frames),
        removed_paths(frames, threshold) == Seq::<String>::empty(),
{
    lemma_all_set_keeps_all(paths_of(frames), keep_flags(results_of(frames), threshold));
}

/// The frame of an image holds a fingerprint exactly where one belongs to the
/// image, and then that one.
pub proof fn lemma_frame_holds_the_image_fingerprint(image: CapturedImage, frame: FingerprintedFrame)
    requires
        fingerprint_of(image, frame),
    ensures
        match frame.fingerprint {
            Ok(fingerprint) => fingerprint_bits(image) == Some(fingerprint@),
            Err(_) => fingerprint_bits(image) is None,
        },
{
}

/// Reducing the frames of images is reducing the images: the frames have the
/// images' paths, and two frames are a duplicate pair exactly where the two
/// images are.
pub proof fn lemma_frames_reduce_as_images(
    images: Seq<CapturedImage>,
    frames: Seq<FingerprintedFrame>,
    threshold: u32,
)
    requires
        fingerprinted(images, frames),
    ensures
        paths_of(frames) == image_paths(images),
        keep_flags(results_of(frames), threshold) == image_flags(images, threshold),
        kept_paths(frames, threshold) == kept_images(images, threshold),
        removed_paths(frames, threshold) == removed_images(images, threshold),
{
    let results = results_of(frames);
    assert(paths_of(frames) =~= image_paths(images));
    assert forall|i: int| 0 <= i < images.len() implies kept_at(results, i, threshold)
        == !duplicate_images(images, i + 1, threshold) by {
        lemma_frame_holds_the_image_fingerprint(images[i], frames[i]);
        if i + 1 < images.len() {
            lemma_frame_holds_the_image_fingerprint(images[i + 1], frames[i + 1]);
        }
    }
    assert(keep_flags(results, threshold) =~= image_flags(images, threshold));
}

/// For one batch of images, raising the threshold never brings a removed image
/// back, so that the number of removed images never falls.
pub proof fn lemma_image_threshold_is_monotone(images: Seq<CapturedImage>, low: u32, high: u32)
    requires
        low <= high,
    ensures
        forall|i: int|
            0 < i < images.len() && duplicate_images(images, i, low) ==> duplicate_images(
                images,
                i,
                high,
            ),
        removed_images(images, low).len() <= removed_images(images, high).len(),
        kept_images(images, low).len() >= kept_images(images, high).len(),
{
    lemma_more_cleared_more_removed(
        image_paths(images),
        image_flags(images, low),
        image_flags(images, high),
    );
    lemma_split_is_complete(image_paths(images), image_flags(images, low));
    lemma_split_is_complete(image_paths(images), image_flags(images, high));
}

/// Two files that decode to the same raster have the same fingerprint, or
/// both have none.
pub proof fn lemma_same_raster_same_fingerprint(
    path: Seq<char>,
    contents: Seq<u8>,
    other_path: Seq<char>,
    other_contents: Seq<u8>,
)
    requires
        decoded(path, contents) is Ok,
        decoded(path, contents) == decoded(other_path, other_contents),
    ensures
        phash_bits(path, contents) == phash_bits(other_path, other_contents),
{
}

} // verus!
