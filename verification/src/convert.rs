//! The resize-and-pack pipeline: each requested size is resampled from the
//! source image, mapped to its entry type, and packed into an ICNS archive,
//! which is then serialized to bytes.  Unsupported and repeated sizes are
//! skipped without aborting the run; an archive with no entry at all is a
//! fatal error.
//!
//! Decoding the source image and resampling it are the work of the `image`
//! crate, and the archive itself is an `icns::IconFamily`; both stand behind
//! trusted declarations whose contracts state what those crates' sources
//! show.

use vstd::prelude::*;

use crate::icon_types::is_supported_size;
use crate::icon_types::size_to_icon_type;
use crate::sizes::preset_sizes;
use crate::sizes::QualityPreset;

verus! {

#[verifier::external_type_specification]
#[verifier::external_body]
pub struct ExDynamicImage(image::DynamicImage);

#[verifier::external_type_specification]
#[verifier::external_body]
pub struct ExIconFamily(icns::IconFamily);

#[verifier::external_type_specification]
#[verifier::external_body]
pub struct ExIcnsImage(icns::Image);

/// The full pixel contents of a decoded image, sample layout included; two
/// images with the same contents resample identically.
pub uninterp spec fn image_pixels(img: image::DynamicImage) -> Seq<u8>;

/// The RGBA samples produced by resampling an image to a square of the given
/// side with the fixed high-quality filter; a function of the source pixels
/// and the side alone.
pub uninterp spec fn resample_of(pixels: Seq<u8>, size: u32) -> Seq<u8>;

/// The icons packed into an archive so far, each as its square pixel side
/// and its RGBA samples, in the order they were added.
pub uninterp spec fn family_icons(family: icns::IconFamily) -> Seq<(u32, Seq<u8>)>;

/// The serialized ICNS byte stream of an archive holding the given icons; a
/// function of the icons alone.
pub uninterp spec fn icns_bytes_of(icons: Seq<(u32, Seq<u8>)>) -> Seq<u8>;

/// The square pixel side of a container image.
pub uninterp spec fn icns_image_side(img: icns::Image) -> u32;

/// The raw samples of a container image.
pub uninterp spec fn icns_image_pixels(img: icns::Image) -> Seq<u8>;

/// Whether a container image is square with RGBA samples; only such images
/// come out of `icns_image_from_rgba`, and only of such images do
/// `icns_image_side` and `icns_image_pixels` speak.
pub uninterp spec fn icns_image_is_square_rgba(img: icns::Image) -> bool;

/// Relies on `image::DynamicImage::resize_exact` with the `Lanczos3` filter
/// and on `image::DynamicImage::to_rgba8`: the result is an image of exactly
/// `size` by `size` pixels determined by the source pixels and `size` alone,
/// exported as 4 bytes per pixel.
#[verifier::external_body]
fn resample_rgba(img: &image::DynamicImage, size: u32) -> (samples: Vec<u8>)
    requires
        1 <= size <= 512,
    ensures
        samples@ == resample_of(image_pixels(*img), size),
        samples@.len() == 4 * (size as nat) * (size as nat),
{
    let resized = img.resize_exact(size, size, image::imageops::FilterType::Lanczos3);
    resized.to_rgba8().into_raw()
}

/// Relies on `icns::Image::from_data` with `PixelFormat::RGBA`: it accepts
/// the buffer exactly when its length is 4 bytes per pixel of a
/// `size`-by-`size` image, and then wraps it unchanged.
#[verifier::external_body]
fn icns_image_from_rgba(size: u32, samples: Vec<u8>) -> (img: Option<icns::Image>)
    ensures
        img is Some <==> samples@.len() == 4 * (size as nat) * (size as nat),
        img matches Some(i) ==> icns_image_is_square_rgba(i) && icns_image_side(i) == size
            && icns_image_pixels(i) == samples@,
{
    icns::Image::from_data(icns::PixelFormat::RGBA, size, size, samples).ok()
}

/// Relies on `icns::IconFamily::new`: a fresh archive holds no icons.
#[verifier::external_body]
fn icns_family_new() -> (family: icns::IconFamily)
    ensures
        family_icons(family) == Seq::<(u32, Seq<u8>)>::empty(),
{
    icns::IconFamily::new()
}

/// Relies on `icns::IconFamily::add_icon`: it encodes the image (together
/// with its mask element where the entry type asks for one) and appends it to
/// the archive; it succeeds for every square RGBA image whose side has an
/// entry type, and on failure the archive is unchanged.
#[verifier::external_body]
fn icns_family_add_icon(family: &mut icns::IconFamily, img: &icns::Image) -> (added: bool)
    ensures
        added ==> family_icons(*final(family)) == family_icons(*old(family)).push(
            (icns_image_side(*img), icns_image_pixels(*img)),
        ),
        !added ==> family_icons(*final(family)) == family_icons(*old(family)),
        icns_image_is_square_rgba(*img) && is_supported_size(icns_image_side(*img)) ==> added,
{
    family.add_icon(img).is_ok()
}

/// Relies on `icns::IconFamily::write`: the serialized stream is determined
/// by the archive's contents alone, it opens with an eight-byte header
/// (magic literal and total length), and writing to an in-memory buffer
/// cannot fail.  The size bounds keep the format's 32-bit length field far
/// from overflow.
#[verifier::external_body]
fn icns_family_to_bytes(family: &icns::IconFamily) -> (bytes: Vec<u8>)
    requires
        family_icons(*family).len() <= 8,
        forall|i: int|
            0 <= i < family_icons(*family).len() ==> (#[trigger] family_icons(
                *family,
            )[i]).1.len() <= 1048576,
    ensures
        bytes@ == icns_bytes_of(family_icons(*family)),
        bytes@.len() >= 8,
{
    let mut out: Vec<u8> = Vec::new();
    let _ = family.write(&mut out);
    out
}

/// A whole conversion run failed; per-size problems are skipped instead.
#[derive(Clone, Copy, Debug, PartialEq, Eq, Structural)]
pub enum ConvertError {
    /// No requested size produced an entry, so there is no archive to write.
    NoIcons,
}

/// The sizes that actually become archive entries: supported sizes in
/// first-occurrence order.  A size that is unsupported, or that already has
/// an entry, is skipped without aborting the run.
pub open spec fn planned_sizes(sizes: Seq<u32>) -> Seq<u32>
    decreases sizes.len(),
{
    if sizes.len() == 0 {
        Seq::empty()
    } else {
        let earlier = planned_sizes(sizes.drop_last());
        let s = sizes.last();
        if is_supported_size(s) && !earlier.contains(s) {
            earlier.push(s)
        } else {
            earlier
        }
    }
}

/// The archive entries a conversion run accumulates: one per planned size,
/// holding that size's resampled RGBA pixels.
pub open spec fn planned_entries(pixels: Seq<u8>, sizes: Seq<u32>) -> Seq<(u32, Seq<u8>)> {
    planned_sizes(sizes).map_values(|s: u32| (s, resample_of(pixels, s)))
}

/// What a conversion run serializes: `None` when no requested size is
/// supported (an empty archive is a hard failure), otherwise the archive
/// bytes, a function of the source pixels and the requested sizes alone.
pub open spec fn conversion_output(pixels: Seq<u8>, sizes: Seq<u32>) -> Option<Seq<u8>> {
    if planned_sizes(sizes).len() == 0 {
        None
    } else {
        Some(icns_bytes_of(planned_entries(pixels, sizes)))
    }
}

/// Every planned size is supported and no larger than 512.
proof fn lemma_planned_sizes_supported(sizes: Seq<u32>)
    ensures
        forall|i: int|
            0 <= i < planned_sizes(sizes).len() ==> is_supported_size(
                #[trigger] planned_sizes(sizes)[i],
            ) && planned_sizes(sizes)[i] <= 512,
    decreases sizes.len(),
{
    if sizes.len() > 0 {
        lemma_planned_sizes_supported(sizes.drop_last());
        let earlier = planned_sizes(sizes.drop_last());
        let s = sizes.last();
        if is_supported_size(s) && !earlier.contains(s) {
            assert forall|i: int| 0 <= i < planned_sizes(sizes).len() implies is_supported_size(
                #[trigger] planned_sizes(sizes)[i],
            ) && planned_sizes(sizes)[i] <= 512 by {
                if i < earlier.len() {
                    assert(planned_sizes(sizes)[i] == earlier[i]);
                } else {
                    assert(planned_sizes(sizes)[i] == s);
                }
            }
        }
    }
}

/// Planned sizes are distinct.
proof fn lemma_planned_sizes_distinct(sizes: Seq<u32>)
    ensures
        forall|i: int, j: int|
            0 <= i < j < planned_sizes(sizes).len() ==> planned_sizes(sizes)[i] != planned_sizes(
                sizes,
            )[j],
    decreases sizes.len(),
{
    if sizes.len() > 0 {
        lemma_planned_sizes_distinct(sizes.drop_last());
        let earlier = planned_sizes(sizes.drop_last());
        let s = sizes.last();
        if is_supported_size(s) && !earlier.contains(s) {
            assert(forall|i: int| 0 <= i < earlier.len() ==> earlier[i] != s);
        }
    }
}

/// A sequence of distinct supported sizes has at most six elements, one per
/// entry type.
proof fn lemma_distinct_supported_bound(sizes: Seq<u32>)
    requires
        forall|i: int| 0 <= i < sizes.len() ==> is_supported_size(#[trigger] sizes[i]),
        forall|i: int, j: int| 0 <= i < j < sizes.len() ==> sizes[i] != sizes[j],
    ensures
        sizes.len() <= 6,
{
    broadcast use vstd::set::group_set_axioms;

    assert(sizes.no_duplicates()) by {
        assert forall|i: int, j: int|
            0 <= i < sizes.len() && 0 <= j < sizes.len() && i != j implies sizes[i]
            != sizes[j] by {
            if i < j {
                assert(sizes[i] != sizes[j]);
            } else {
                assert(sizes[j] != sizes[i]);
            }
        }
    }
    sizes.unique_seq_to_set();
    let p1 = Set::<u32>::empty().insert(16);
    let p2 = p1.insert(32);
    let p3 = p2.insert(64);
    let p4 = p3.insert(128);
    let p5 = p4.insert(256);
    let pool = p5.insert(512);
    assert(p1.len() == 1);
    assert(p2.len() == 2);
    assert(p3.len() == 3);
    assert(p4.len() == 4);
    assert(p5.len() == 5);
    assert(pool.len() == 6);
    assert(sizes.to_set().subset_of(pool)) by {
        assert forall|s: u32| sizes.to_set().contains(s) implies pool.contains(s) by {
            assert(sizes.contains(s));
            let w = choose|k: int| 0 <= k < sizes.len() && sizes[k] == s;
            assert(is_supported_size(sizes[w]));
        }
    }
    vstd::set_lib::lemma_len_subset(sizes.to_set(), pool);
}

/// Whether `sizes` already holds `size`.
fn contains_size(sizes: &Vec<u32>, size: u32) -> (found: bool)
    ensures
        found == sizes@.contains(size),
{
    let mut k: usize = 0;
    while k < sizes.len()
        invariant
            0 <= k <= sizes@.len(),
            forall|j: int| 0 <= j < k ==> sizes@[j] != size,
        decreases sizes@.len() - k,
    {
        if sizes[k] == size {
            return true;
        }
        k = k + 1;
    }
    proof {
        assert(!sizes@.contains(size)) by {
            if sizes@.contains(size) {
                let w = choose|j: int| 0 <= j < sizes@.len() && sizes@[j] == size;
            }
        }
    }
    false
}

/// Runs the resize-and-pack pipeline: resamples the source image once per
/// requested size, packs each supported size as a typed entry (skipping
/// unsupported and repeated sizes), and serializes the archive.  Fails only
/// when not a single entry was added.
pub fn build_icns(img: &image::DynamicImage, sizes: &Vec<u32>) -> (result: Result<
    Vec<u8>,
    ConvertError,
>)
    ensures
        result matches Ok(bytes) ==> conversion_output(image_pixels(*img), sizes@) == Some(
            bytes@,
        ),
        result matches Ok(bytes) ==> bytes@.len() >= 8,
        result is Err <==> conversion_output(image_pixels(*img), sizes@) is None,
{
    let ghost pixels = image_pixels(*img);
    let mut family = icns_family_new();
    let mut added: Vec<u32> = Vec::new();
    let mut i: usize = 0;
    while i < sizes.len()
        invariant
            0 <= i <= sizes@.len(),
            pixels == image_pixels(*img),
            added@ == planned_sizes(sizes@.take(i as int)),
            family_icons(family) == planned_entries(pixels, sizes@.take(i as int)),
            forall|k: int|
                0 <= k < family_icons(family).len() ==> (#[trigger] family_icons(
                    family,
                )[k]).1.len() <= 1048576,
        decreases sizes@.len() - i,
    {
        let size = sizes[i];
        let ghost prefix = sizes@.take(i as int);
        let ghost extended = sizes@.take(i as int + 1);
        proof {
            assert(extended.drop_last() =~= prefix);
            assert(extended.last() == size);
        }
        let supported = size_to_icon_type(size).is_some();
        if supported && !contains_size(&added, size) {
            let samples = resample_rgba(img, size);
            let ghost sample_len = samples@.len();
            let icon_opt = icns_image_from_rgba(size, samples);
            let icon = match icon_opt {
                Some(icon) => icon,
                None => vstd::pervasive::unreached(),
            };
            let packed = icns_family_add_icon(&mut family, &icon);
            proof {
                assert(packed);
            }
            added.push(size);
            proof {
                assert(planned_sizes(extended) == planned_sizes(prefix).push(size));
                assert(planned_entries(pixels, extended) =~= planned_entries(
                    pixels,
                    prefix,
                ).push((size, resample_of(pixels, size))));
                assert(resample_of(pixels, size).len() == sample_len);
                assert(sample_len <= 1048576) by {
                    assert(size == 16 || size == 32 || size == 64 || size == 128 || size == 256
                        || size == 512);
                }
            }
        } else {
            proof {
                assert(planned_sizes(extended) == planned_sizes(prefix));
                assert(planned_entries(pixels, extended) =~= planned_entries(pixels, prefix));
            }
        }
        i = i + 1;
    }
    proof {
        assert(sizes@.take(sizes@.len() as int) =~= sizes@);
    }
    if added.len() == 0 {
        Err(ConvertError::NoIcons)
    } else {
        proof {
            lemma_planned_sizes_supported(sizes@);
            lemma_planned_sizes_distinct(sizes@);
            lemma_distinct_supported_bound(planned_sizes(sizes@));
        }
        let bytes = icns_family_to_bytes(&family);
        Ok(bytes)
    }
}

/// A run over the standard preset plans an entry for every one of its six
/// sizes, in order — none is unsupported, none repeats — so the run
/// succeeds whatever the source pixels are.
pub proof fn lemma_standard_preset_fills_archive(pixels: Seq<u8>)
    ensures
        planned_sizes(preset_sizes(QualityPreset::Standard)) == preset_sizes(
            QualityPreset::Standard,
        ),
        planned_entries(pixels, preset_sizes(QualityPreset::Standard)).len() == 6,
        conversion_output(pixels, preset_sizes(QualityPreset::Standard)) is Some,
        forall|i: int|
            0 <= i < 6 ==> planned_entries(pixels, preset_sizes(QualityPreset::Standard))[i] == (
                preset_sizes(QualityPreset::Standard)[i],
                resample_of(pixels, preset_sizes(QualityPreset::Standard)[i]),
            ),
{
    let s6 = preset_sizes(QualityPreset::Standard);
    let s0 = Seq::<u32>::empty();
    let s1 = seq![16u32];
    let s2 = seq![16u32, 32u32];
    let s3 = seq![16u32, 32u32, 64u32];
    let s4 = seq![16u32, 32u32, 64u32, 128u32];
    let s5 = seq![16u32, 32u32, 64u32, 128u32, 256u32];
    assert(s1.drop_last() =~= s0 && s1.last() == 16u32);
    assert(s2.drop_last() =~= s1 && s2.last() == 32u32);
    assert(s3.drop_last() =~= s2 && s3.last() == 64u32);
    assert(s4.drop_last() =~= s3 && s4.last() == 128u32);
    assert(s5.drop_last() =~= s4 && s5.last() == 256u32);
    assert(s6.drop_last() =~= s5 && s6.last() == 512u32);
    assert(planned_sizes(s0) =~= Seq::<u32>::empty());
    assert(!planned_sizes(s0).contains(16u32));
    assert(planned_sizes(s1) =~= planned_sizes(s0).push(16u32));
    assert(planned_sizes(s1) =~= s1);
    assert(!planned_sizes(s1).contains(32u32));
    assert(planned_sizes(s2) =~= s2);
    assert(!planned_sizes(s2).contains(64u32));
    assert(planned_sizes(s3) =~= s3);
    assert(!planned_sizes(s3).contains(128u32));
    assert(planned_sizes(s4) =~= s4);
    assert(!planned_sizes(s4).contains(256u32));
    assert(planned_sizes(s5) =~= s5);
    assert(!planned_sizes(s5).contains(512u32));
    assert(planned_sizes(s6) =~= s6);
}

/// Conversion is deterministic: the same source pixels and the same
/// requested sizes always serialize to byte-identical archives, or fail
/// alike.
pub proof fn lemma_conversion_deterministic(
    pixels1: Seq<u8>,
    sizes1: Seq<u32>,
    pixels2: Seq<u8>,
    sizes2: Seq<u32>,
)
    requires
        pixels1 == pixels2,
        sizes1 == sizes2,
    ensures
        conversion_output(pixels1, sizes1) == conversion_output(pixels2, sizes2),
{
}

} // verus!
