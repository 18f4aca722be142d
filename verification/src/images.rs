use vstd::prelude::*;

use crate::names::{
    is_digit_char, num_to_str, padded_decimal, padded_decimal_digits, padded_decimal_injective,
};

verus! {

/// The color type of a decoded image.
#[derive(Clone, Copy, PartialEq, Eq, Structural, Debug)]
pub enum ImageColor {
    L8,
    La8,
    Rgb8,
    Rgba8,
    L16,
    La16,
    Rgb16,
    Rgba16,
    Rgb32F,
    Rgba32F,
}

/// The format an image is saved in.
#[derive(Clone, Copy, PartialEq, Eq, Structural, Debug)]
pub enum ImageExt {
    Webp,
    Png,
}

/// 8-bit RGB(A) images are saved as WebP, other integer images as PNG;
/// floating-point images are not supported.
pub open spec fn spec_image_ext(color: ImageColor) -> Option<ImageExt> {
    match color {
        ImageColor::Rgb8 | ImageColor::Rgba8 => Some(ImageExt::Webp),
        ImageColor::L8 | ImageColor::L16 | ImageColor::La8 | ImageColor::La16
        | ImageColor::Rgb16 | ImageColor::Rgba16 => Some(ImageExt::Png),
        ImageColor::Rgb32F | ImageColor::Rgba32F => None,
    }
}

/// The format to save an image of color type `color` in; an unsupported
/// color type is handed back as the error.
pub fn new_image_ext(color: ImageColor) -> (r: Result<ImageExt, ImageColor>)
    ensures
        match spec_image_ext(color) {
            Some(ext) => r == Ok::<ImageExt, ImageColor>(ext),
            None => r == Err::<ImageExt, ImageColor>(color),
        },
{
    match color {
        ImageColor::Rgb8 | ImageColor::Rgba8 => Ok(ImageExt::Webp),
        ImageColor::L8 | ImageColor::L16 | ImageColor::La8 | ImageColor::La16
        | ImageColor::Rgb16 | ImageColor::Rgba16 => Ok(ImageExt::Png),
        ImageColor::Rgb32F | ImageColor::Rgba32F => Err(color),
    }
}

/// The file extension of a format.
pub open spec fn ext_chars(ext: ImageExt) -> Seq<char> {
    match ext {
        ImageExt::Webp => seq!['w', 'e', 'b', 'p'],
        ImageExt::Png => seq!['p', 'n', 'g'],
    }
}

fn push_ext(s: &mut String, ext: ImageExt)
    ensures
        final(s)@ == old(s)@ + ext_chars(ext),
{
    match ext {
        ImageExt::Webp => {
            s.push('w');
            s.push('e');
            s.push('b');
            s.push('p');
        },
        ImageExt::Png => {
            s.push('p');
            s.push('n');
            s.push('g');
        },
    }
    assert(s@ =~= old(s)@ + ext_chars(ext));
}

/// The file extension of a format, `webp` or `png`.
pub fn ext_string(ext: ImageExt) -> (r: String)
    ensures
        r@ == ext_chars(ext),
{
    let mut r = String::new();
    push_ext(&mut r, ext);
    r
}

pub open spec fn cover_name(ext: ImageExt) -> Seq<char> {
    seq!['c', 'o', 'v', 'e', 'r', '.'] + ext_chars(ext)
}

/// The file name of the cover image: `cover.` and its extension.
pub fn cover_image_name(color: ImageColor) -> (r: Result<String, ImageColor>)
    ensures
        match spec_image_ext(color) {
            Some(ext) => r matches Ok(name) && name@ == cover_name(ext),
            None => r == Err::<String, ImageColor>(color),
        },
{
    let ext = new_image_ext(color)?;
    let mut r = String::new();
    r.push('c');
    r.push('o');
    r.push('v');
    r.push('e');
    r.push('r');
    r.push('.');
    push_ext(&mut r, ext);
    assert(r@ =~= cover_name(ext));
    Ok(r)
}

/// The file name of the image numbered `index`.
pub open spec fn image_name(index: nat, ext: ImageExt) -> Seq<char> {
    padded_decimal(index) + seq!['.'] + ext_chars(ext)
}

/// Images with different numbers are saved under different names, and none
/// under the name of the cover: saving the images of a novel never
/// overwrites one with another.
pub proof fn image_names_distinct(i: nat, j: nat, a: ImageExt, b: ImageExt)
    requires
        i != j,
    ensures
        image_name(i, a) != image_name(j, b),
        image_name(i, a) != cover_name(b),
{
    padded_decimal_digits(i);
    padded_decimal_digits(j);
    let pi = padded_decimal(i);
    let pj = padded_decimal(j);
    let si = image_name(i, a);
    let sj = image_name(j, b);
    if si == sj {
        if pi.len() < pj.len() {
            assert(si[pi.len() as int] == '.');
            assert(sj[pi.len() as int] == pj[pi.len() as int]);
            assert(is_digit_char(pj[pi.len() as int]));
        } else if pj.len() < pi.len() {
            assert(sj[pj.len() as int] == '.');
            assert(si[pj.len() as int] == pi[pj.len() as int]);
            assert(is_digit_char(pi[pj.len() as int]));
        } else {
            assert(pi =~= si.subrange(0, pi.len() as int));
            assert(pj =~= sj.subrange(0, pj.len() as int));
            padded_decimal_injective(i, j);
        }
    }
    padded_decimal_injective(i, i);
    assert(si[0] == pi[0]);
    assert(is_digit_char(pi[0]));
    assert(cover_name(b)[0] == 'c');
}

/// The file name of the image numbered `image_index`: the number padded to
/// three digits, a dot, and its extension.
pub fn new_image_name(color: ImageColor, image_index: u16) -> (r: Result<String, ImageColor>)
    ensures
        match spec_image_ext(color) {
            Some(ext) => r matches Ok(name) && name@ == image_name(image_index as nat, ext),
            None => r == Err::<String, ImageColor>(color),
        },
{
    let ext = new_image_ext(color)?;
    let mut r = num_to_str(image_index);
    r.push('.');
    push_ext(&mut r, ext);
    assert(r@ =~= image_name(image_index as nat, ext));
    Ok(r)
}

/// The number of images with a supported color type among the first `n`.
pub open spec fn supported_count(colors: Seq<ImageColor>, n: int) -> nat
    decreases n,
{
    if n <= 0 {
        0
    } else if spec_image_ext(colors[n - 1]) is Some {
        supported_count(colors, n - 1) + 1
    } else {
        supported_count(colors, n - 1)
    }
}

/// The name that the `k`-th image of a novel is saved under: images with a
/// supported color type are numbered from 1 in order; the others are not
/// saved.
pub open spec fn nth_image_name(colors: Seq<ImageColor>, k: int) -> Option<Seq<char>> {
    match spec_image_ext(colors[k]) {
        Some(ext) => Some(image_name(supported_count(colors, k) + 1, ext)),
        None => None,
    }
}

/// Counting more images never counts fewer supported ones.
proof fn supported_count_grows(colors: Seq<ImageColor>, a: int, b: int)
    requires
        a <= b,
    ensures
        supported_count(colors, a) <= supported_count(colors, b),
    decreases b - a,
{
    if a < b {
        supported_count_grows(colors, a, b - 1);
    }
}

/// The number of images with a supported color type.
pub fn count_supported(colors: &Vec<ImageColor>) -> (r: usize)
    ensures
        r == supported_count(colors@, colors@.len() as int),
{
    let mut n: usize = 0;
    let mut k: usize = 0;
    while k < colors.len()
        invariant
            k <= colors@.len(),
            n == supported_count(colors@, k as int),
            n <= k,
        decreases colors@.len() - k,
    {
        if new_image_ext(colors[k]).is_ok() {
            n += 1;
        }
        k += 1;
    }
    n
}

/// The names that the images of a novel, of the given color types in order,
/// are saved under. The numbers are `u16`s, so fewer than 65535 images may
/// have a supported color type; there may be any number of others.
pub fn image_names(colors: &Vec<ImageColor>) -> (r: Vec<Option<String>>)
    requires
        supported_count(colors@, colors@.len() as int) < 65535,
    ensures
        r@.len() == colors@.len(),
        forall|k: int|
            0 <= k < colors@.len() ==> match nth_image_name(colors@, k) {
                Some(name) => (#[trigger] r@[k]) matches Some(s) && s@ == name,
                None => r@[k] is None,
            },
{
    let mut r: Vec<Option<String>> = Vec::new();
    let mut image_index: u16 = 1;
    let mut k: usize = 0;
    while k < colors.len()
        invariant
            k <= colors@.len(),
            supported_count(colors@, colors@.len() as int) < 65535,
            r@.len() == k,
            image_index == supported_count(colors@, k as int) + 1,
            forall|j: int|
                0 <= j < k ==> match nth_image_name(colors@, j) {
                    Some(name) => (#[trigger] r@[j]) matches Some(s) && s@ == name,
                    None => r@[j] is None,
                },
        decreases colors@.len() - k,
    {
        proof {
            supported_count_grows(colors@, k as int + 1, colors@.len() as int);
        }
        match new_image_name(colors[k], image_index) {
            Ok(name) => {
                r.push(Some(name));
                image_index += 1;
            },
            Err(_) => {
                r.push(None);
            },
        }
        k += 1;
    }
    r
}

} // verus!
