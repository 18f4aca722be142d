use vstd::prelude::*;

use crate::text::{contains_text, occurs_in, same_text};

verus! {

/// A novel website.
#[derive(Clone, Copy, PartialEq, Eq, Structural, Debug)]
pub enum Source {
    Sfacg,
    Ciweimao,
    Ciyuanji,
}

/// The output format of a download.
#[derive(Clone, Copy, PartialEq, Eq, Structural, Debug)]
pub enum Format {
    Pandoc,
    Mdbook,
}

/// How much of a backtrace is printed.
#[derive(Clone, Copy, PartialEq, Eq, Structural, Debug)]
pub enum Backtrace {
    ON,
    FULL,
}

/// The name of a source, as given on the command line.
pub open spec fn source_name(source: Source) -> Seq<char> {
    match source {
        Source::Sfacg => seq!['s', 'f', 'a', 'c', 'g'],
        Source::Ciweimao => seq!['c', 'i', 'w', 'e', 'i', 'm', 'a', 'o'],
        Source::Ciyuanji => seq!['c', 'i', 'y', 'u', 'a', 'n', 'j', 'i'],
    }
}

fn push_chars(s: &mut String, cs: &[char])
    ensures
        final(s)@ == old(s)@ + cs@,
{
    let mut i: usize = 0;
    while i < cs.len()
        invariant
            i <= cs.len(),
            s@ == old(s)@ + cs@.take(i as int),
        decreases cs.len() - i,
    {
        s.push(cs[i]);
        i += 1;
        assert(cs@.take(i as int) =~= cs@.take(i - 1).push(cs@[i - 1]));
    }
    assert(cs@.take(cs.len() as int) =~= cs@);
}

/// The name of a source: `sfacg`, `ciweimao` or `ciyuanji`.
pub fn source_name_string(source: Source) -> (r: String)
    ensures
        r@ == source_name(source),
{
    let mut r = String::new();
    match source {
        Source::Sfacg => push_chars(&mut r, &['s', 'f', 'a', 'c', 'g']),
        Source::Ciweimao => push_chars(&mut r, &['c', 'i', 'w', 'e', 'i', 'm', 'a', 'o']),
        Source::Ciyuanji => push_chars(&mut r, &['c', 'i', 'y', 'u', 'a', 'n', 'j', 'i']),
    }
    assert(r@ =~= source_name(source));
    r
}

/// A download that cannot skip the log-in.
#[derive(Clone, Copy, PartialEq, Eq, Structural, Debug)]
pub struct SkipLoginError {
    pub source: Source,
}

/// Only sfacg can be downloaded without logging in.
pub fn check_skip_login_flag(source: Source, skip_login: bool) -> (r: Result<(), SkipLoginError>)
    ensures
        r is Err <==> skip_login && (source == Source::Ciweimao || source == Source::Ciyuanji),
        r matches Err(e) ==> e.source == source,
{
    if skip_login && (source == Source::Ciweimao || source == Source::Ciyuanji) {
        return Err(SkipLoginError { source });
    }
    Ok(())
}

/// The scale that the super-resolution model is run at for an image of
/// `width` by `height` pixels: from how many times the image fits in a 5K
/// frame (5120 by 2880), taken modulo 256, 16 or more gives 4, 9 or more
/// gives 3, and less gives 2.
pub open spec fn spec_calc_scale(width: u32, height: u32) -> u8 {
    let n = (14745600int / (width * height)) % 256;
    if n >= 16 {
        4
    } else if n >= 9 {
        3
    } else {
        2
    }
}

pub fn calc_scale(width: u32, height: u32) -> (r: u8)
    requires
        0 < width * height <= u32::MAX,
    ensures
        r == spec_calc_scale(width, height),
        2 <= r <= 4,
{
    let pixel = width * height;
    let n = ((5120 * 2880 / pixel) % 256) as u8;
    if n >= 16 {
        4
    } else if n >= 9 {
        3
    } else {
        2
    }
}

/// A range of word counts to search for.
#[derive(Clone, Copy, PartialEq, Eq, Structural, Debug)]
pub enum WordCountRange {
    /// At least this many words.
    RangeFrom(u32),
    /// Fewer than this many words.
    RangeTo(u32),
    /// From the first count, to fewer than the second.
    Range(u32, u32),
}

/// The word count range of a search with the given bounds, if it has any.
pub fn word_count_range(min_word_count: Option<u32>, max_word_count: Option<u32>) -> (r: Option<
    WordCountRange,
>)
    ensures
        r == match (min_word_count, max_word_count) {
            (Some(min), None) => Some(WordCountRange::RangeFrom(min)),
            (None, Some(max)) => Some(WordCountRange::RangeTo(max)),
            (Some(min), Some(max)) => Some(WordCountRange::Range(min, max)),
            (None, None) => None::<WordCountRange>,
        },
{
    match (min_word_count, max_word_count) {
        (Some(min), None) => Some(WordCountRange::RangeFrom(min)),
        (None, Some(max)) => Some(WordCountRange::RangeTo(max)),
        (Some(min), Some(max)) => Some(WordCountRange::Range(min, max)),
        (None, None) => None,
    }
}

/// The language of the messages for the system locale `locale`: `zh-CN`
/// reads as `zh-Hans`, `zh-HK` and `zh-TW` as `zh-Hant`, the `C` locale and
/// a missing locale as `en-US`; any other locale as it is.
pub open spec fn spec_language_tag(locale: Option<Seq<char>>) -> Seq<char> {
    match locale {
        None => "en-US"@,
        Some(l) => if l == "zh-CN"@ {
            "zh-Hans"@
        } else if l == "zh-HK"@ || l == "zh-TW"@ {
            "zh-Hant"@
        } else if l == "C"@ {
            "en-US"@
        } else {
            l
        },
    }
}

/// The language of the messages for the system locale `locale`.
pub fn language_tag(locale: Option<&str>) -> (r: String)
    ensures
        r@ == spec_language_tag(
            match locale {
                Some(l) => Some(l@),
                None => None,
            },
        ),
{
    match locale {
        None => "en-US".to_string(),
        Some(l) => if same_text(l, "zh-CN") {
            "zh-Hans".to_string()
        } else if same_text(l, "zh-HK") || same_text(l, "zh-TW") {
            "zh-Hant".to_string()
        } else if same_text(l, "C") {
            "en-US".to_string()
        } else {
            l.to_string()
        },
    }
}

/// A terminal program that shows inline images: its name mentions iTerm,
/// WezTerm or mintty.
pub open spec fn shows_images(name: Seq<char>) -> bool {
    occurs_in(name, "iTerm"@) || occurs_in(name, "WezTerm"@) || occurs_in(name, "mintty"@)
}

fn names_image_terminal(name: &str) -> (r: bool)
    ensures
        r == shows_images(name@),
{
    contains_text(name, "iTerm") || contains_text(name, "WezTerm") || contains_text(name, "mintty")
}

/// Whether the terminal shows inline images, from the values of the
/// `TERM_PROGRAM` and `LC_TERMINAL` variables where they are set.
pub fn is_iterm_supported(term_program: Option<&str>, lc_terminal: Option<&str>) -> (r: bool)
    ensures
        r == ((term_program matches Some(t) && shows_images(t@)) || (lc_terminal matches Some(l)
            && shows_images(l@))),
{
    if let Some(t) = term_program {
        if names_image_terminal(t) {
            return true;
        }
    }
    if let Some(l) = lc_terminal {
        if names_image_terminal(l) {
            return true;
        }
    }
    false
}

} // verus!
