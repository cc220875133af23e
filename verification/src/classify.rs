//! Resource-kind classification: a resolved file counts as an audio asset or
//! an image asset by its name's extension alone, matched case-insensitively
//! against one of two fixed, disjoint allow-lists. Nothing is content-sniffed.

use vstd::prelude::*;

verus! {

/// ASCII lower-casing of one byte; anything outside `A`..`Z` is unchanged.
pub open spec fn ascii_lower(b: u8) -> u8 {
    if 65 <= b && b <= 90 {
        (b + 32) as u8
    } else {
        b
    }
}

/// The name ends, case-insensitively, in the given suffix (the suffix itself
/// is given lower-case).
pub open spec fn suffix_matches(name: Seq<u8>, suffix: Seq<u8>) -> bool {
    name.len() >= suffix.len() && forall|i: int|
        0 <= i < suffix.len() ==> ascii_lower(
            name[name.len() - suffix.len() + i],
        ) == suffix[i]
}

/// `.mp3`
pub open spec fn suffix_mp3() -> Seq<u8> {
    seq![46, 109, 112, 51]
}

/// `.ogg`
pub open spec fn suffix_ogg() -> Seq<u8> {
    seq![46, 111, 103, 103]
}

/// `.m4a`
pub open spec fn suffix_m4a() -> Seq<u8> {
    seq![46, 109, 52, 97]
}

/// `.flac`
pub open spec fn suffix_flac() -> Seq<u8> {
    seq![46, 102, 108, 97, 99]
}

/// `.wav`
pub open spec fn suffix_wav() -> Seq<u8> {
    seq![46, 119, 97, 118]
}

/// `.png`
pub open spec fn suffix_png() -> Seq<u8> {
    seq![46, 112, 110, 103]
}

/// `.gif`
pub open spec fn suffix_gif() -> Seq<u8> {
    seq![46, 103, 105, 102]
}

/// `.jpg`
pub open spec fn suffix_jpg() -> Seq<u8> {
    seq![46, 106, 112, 103]
}

/// `.jpeg`
pub open spec fn suffix_jpeg() -> Seq<u8> {
    seq![46, 106, 112, 101, 103]
}

/// `.bmp`
pub open spec fn suffix_bmp() -> Seq<u8> {
    seq![46, 98, 109, 112]
}

/// The audio allow-list: the name ends in `.mp3`, `.ogg`, `.m4a`, `.flac` or
/// `.wav`, case-insensitively.
pub open spec fn is_audio_name(name: Seq<u8>) -> bool {
    suffix_matches(name, suffix_mp3()) || suffix_matches(name, suffix_ogg()) || suffix_matches(
        name,
        suffix_m4a(),
    ) || suffix_matches(name, suffix_flac()) || suffix_matches(name, suffix_wav())
}

/// The image allow-list: the name ends in `.png`, `.gif`, `.jpg`, `.jpeg` or
/// `.bmp`, case-insensitively.
pub open spec fn is_image_name(name: Seq<u8>) -> bool {
    suffix_matches(name, suffix_png()) || suffix_matches(name, suffix_gif()) || suffix_matches(
        name,
        suffix_jpg(),
    ) || suffix_matches(name, suffix_jpeg()) || suffix_matches(name, suffix_bmp())
}

fn lower_byte(b: u8) -> (r: u8)
    ensures
        r == ascii_lower(b),
{
    if 65 <= b && b <= 90 {
        b + 32
    } else {
        b
    }
}

fn ends_with_lower(name: &Vec<u8>, suffix: &Vec<u8>) -> (r: bool)
    ensures
        r == suffix_matches(name@, suffix@),
{
    if name.len() < suffix.len() {
        return false;
    }
    let off = name.len() - suffix.len();
    let mut i: usize = 0;
    while i < suffix.len()
        invariant
            i <= suffix.len(),
            off == name@.len() - suffix@.len(),
            name@.len() >= suffix@.len(),
            forall|j: int| 0 <= j < i ==> ascii_lower(name@[off + j]) == suffix@[j],
        decreases suffix.len() - i,
    {
        let idx: usize = name.len() - (suffix.len() - i);
        assert(idx == off + i);
        if lower_byte(name[idx]) != suffix[i] {
            assert(ascii_lower(name@[name@.len() - suffix@.len() + i]) != suffix@[i as int]);
            return false;
        }
        i += 1;
    }
    true
}

/// The name is recognized as an audio asset.
pub fn is_song(name: &Vec<u8>) -> (r: bool)
    ensures
        r == is_audio_name(name@),
{
    let mp3: Vec<u8> = vec![46, 109, 112, 51];
    let ogg: Vec<u8> = vec![46, 111, 103, 103];
    let m4a: Vec<u8> = vec![46, 109, 52, 97];
    let flac: Vec<u8> = vec![46, 102, 108, 97, 99];
    let wav: Vec<u8> = vec![46, 119, 97, 118];
    ends_with_lower(name, &mp3) || ends_with_lower(name, &ogg) || ends_with_lower(name, &m4a)
        || ends_with_lower(name, &flac) || ends_with_lower(name, &wav)
}

/// The name is recognized as an image asset.
pub fn is_image(name: &Vec<u8>) -> (r: bool)
    ensures
        r == is_image_name(name@),
{
    let png: Vec<u8> = vec![46, 112, 110, 103];
    let gif: Vec<u8> = vec![46, 103, 105, 102];
    let jpg: Vec<u8> = vec![46, 106, 112, 103];
    let jpeg: Vec<u8> = vec![46, 106, 112, 101, 103];
    let bmp: Vec<u8> = vec![46, 98, 109, 112];
    ends_with_lower(name, &png) || ends_with_lower(name, &gif) || ends_with_lower(name, &jpg)
        || ends_with_lower(name, &jpeg) || ends_with_lower(name, &bmp)
}

proof fn lemma_suffix_tail(name: Seq<u8>, suffix: Seq<u8>)
    requires
        suffix_matches(name, suffix),
        suffix.len() >= 2,
    ensures
        ascii_lower(name[name.len() - 1]) == suffix[suffix.len() - 1],
        ascii_lower(name[name.len() - 2]) == suffix[suffix.len() - 2],
{
    assert(ascii_lower(name[name.len() - suffix.len() + (suffix.len() - 1)]) == suffix[suffix.len()
        - 1]);
    assert(ascii_lower(name[name.len() - suffix.len() + (suffix.len() - 2)]) == suffix[suffix.len()
        - 2]);
}

/// The two allow-lists are disjoint: no name is both an audio asset and an
/// image asset.
pub proof fn lemma_audio_image_disjoint(name: Seq<u8>)
    ensures
        !(is_audio_name(name) && is_image_name(name)),
{
    if is_audio_name(name) && is_image_name(name) {
        if suffix_matches(name, suffix_mp3()) {
            lemma_suffix_tail(name, suffix_mp3());
        }
        if suffix_matches(name, suffix_ogg()) {
            lemma_suffix_tail(name, suffix_ogg());
        }
        if suffix_matches(name, suffix_m4a()) {
            lemma_suffix_tail(name, suffix_m4a());
        }
        if suffix_matches(name, suffix_flac()) {
            lemma_suffix_tail(name, suffix_flac());
        }
        if suffix_matches(name, suffix_wav()) {
            lemma_suffix_tail(name, suffix_wav());
        }
        if suffix_matches(name, suffix_png()) {
            lemma_suffix_tail(name, suffix_png());
        }
        if suffix_matches(name, suffix_gif()) {
            lemma_suffix_tail(name, suffix_gif());
        }
        if suffix_matches(name, suffix_jpg()) {
            lemma_suffix_tail(name, suffix_jpg());
        }
        if suffix_matches(name, suffix_jpeg()) {
            lemma_suffix_tail(name, suffix_jpeg());
        }
        if suffix_matches(name, suffix_bmp()) {
            lemma_suffix_tail(name, suffix_bmp());
        }
        assert(false);
    }
}

} // verus!
