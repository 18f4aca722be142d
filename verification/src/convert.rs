use vstd::prelude::*;

use crate::tables::{
    char_map_contents, convert_map, convert_t2s_map, convert_table, map_of_pairs_values, t2s_pairs,
    t2s_table, CharMap,
};
use crate::text::{
    chars_of, spec_is_ascii_digit, spec_is_control, spec_is_whitespace, string_of, trim_chars,
    trim_keeps_a_stretch, trim_spec,
};
use crate::unicode::{is_punctuation, spec_is_punctuation};

verus! {

/// A conversion of the text of a novel.
#[derive(Clone, Copy, PartialEq, Eq, Structural, Debug)]
pub enum Convert {
    /// Simplified to traditional Chinese.
    S2T,
    /// Traditional to simplified Chinese.
    T2S,
    /// Japanese kanji to traditional, then to simplified Chinese.
    JP2T2S,
    /// Punctuation, spacing and full-width normalisation.
    CUSTOM,
}

/// The language tag of the converted text.
#[derive(Clone, Copy, PartialEq, Eq, Structural, Debug)]
pub enum Lang {
    ZhHant,
    ZhHans,
}

/// The OpenCC configuration chain that a list of conversions asks for.
#[derive(Clone, Copy, PartialEq, Eq, Structural, Debug)]
pub enum OpenccMode {
    /// `JP2T` followed by `TW2S`.
    Jp2tTw2s,
    /// `TW2S`.
    Tw2s,
    /// `S2T`.
    S2t,
}

/// An error reported by the OpenCC step of a conversion.
#[derive(Clone, PartialEq, Eq, Debug)]
pub struct ConvertError {
    pub message: String,
}

pub fn contains_convert(converts: &[Convert], x: Convert) -> (r: bool)
    ensures
        r == converts@.contains(x),
{
    let mut i: usize = 0;
    while i < converts.len()
        invariant
            i <= converts.len(),
            forall|j: int| 0 <= j < i ==> converts@[j] != x,
        decreases converts.len() - i,
    {
        if converts[i] == x {
            return true;
        }
        i += 1;
    }
    false
}

pub open spec fn spec_lang(converts: Seq<Convert>) -> Lang {
    if converts.contains(Convert::S2T) {
        Lang::ZhHant
    } else {
        Lang::ZhHans
    }
}

/// The language of text converted with `converts`: traditional Chinese when
/// the conversions include `S2T`, simplified Chinese otherwise.
pub fn lang(converts: &[Convert]) -> (r: Lang)
    ensures
        r == spec_lang(converts@),
{
    if contains_convert(converts, Convert::S2T) {
        Lang::ZhHant
    } else {
        Lang::ZhHans
    }
}

pub open spec fn spec_opencc_mode(converts: Seq<Convert>) -> Option<OpenccMode> {
    if converts.contains(Convert::JP2T2S) {
        Some(OpenccMode::Jp2tTw2s)
    } else if converts.contains(Convert::T2S) {
        Some(OpenccMode::Tw2s)
    } else if converts.contains(Convert::S2T) {
        Some(OpenccMode::S2t)
    } else {
        None
    }
}

/// The OpenCC chain to run: `JP2T2S` wins over `T2S`, which wins over `S2T`.
pub fn opencc_mode(converts: &[Convert]) -> (r: Option<OpenccMode>)
    ensures
        r == spec_opencc_mode(converts@),
{
    if contains_convert(converts, Convert::JP2T2S) {
        Some(OpenccMode::Jp2tTw2s)
    } else if contains_convert(converts, Convert::T2S) {
        Some(OpenccMode::Tw2s)
    } else if contains_convert(converts, Convert::S2T) {
        Some(OpenccMode::S2t)
    } else {
        None
    }
}

/// What `html_escape::decode_html_entities` returns for a text.
pub uninterp spec fn decoded_html_entities(text: Seq<char>) -> Seq<char>;

/// `html_escape::decode_html_entities`. Its result is named; besides, the
/// source shows that a text without `&` comes back unchanged, and that a
/// non-empty text gives a non-empty result (every reference is replaced by
/// at least one character).
#[verifier::external_body]
fn decode_html_entities(text: &str) -> (r: String)
    ensures
        r@ == decoded_html_entities(text@),
        !text@.contains('&') ==> r@ == text@,
        text@.len() > 0 ==> r@.len() > 0,
{
    html_escape::decode_html_entities(text).into_owned()
}

/// Each character replaced by its entry in `table`, if it has one.
pub open spec fn map_chars(s: Seq<char>, table: Map<char, char>) -> Seq<char> {
    s.map_values(|c: char| if table.dom().contains(c) { table[c] } else { c })
}

/// Zero-width characters, the byte order mark, and control characters.
pub open spec fn is_invisible(c: char) -> bool {
    ||| c == '\u{200B}'
    ||| c == '\u{200C}'
    ||| c == '\u{200D}'
    ||| c == '\u{2060}'
    ||| c == '\u{FEFF}'
    ||| spec_is_control(c)
}

/// One step of the custom conversion: the output so far, extended by the
/// character `c`, which is followed by `next` in the input.
pub open spec fn custom_step(out: Seq<char>, c: char, next: Option<char>, in_heading: bool) -> Seq<
    char,
> {
    let has_last = out.len() > 0;
    let last = out.last();
    if is_invisible(c) {
        out
    } else if spec_is_whitespace(c) {
        if has_last && !spec_is_punctuation(last) {
            out.push(' ')
        } else {
            out
        }
    } else if spec_is_punctuation(c) {
        let base = if !in_heading && has_last && spec_is_whitespace(last) {
            out.drop_last()
        } else {
            out
        };
        if c == ':' {
            if has_last && spec_is_ascii_digit(last) && next is Some && spec_is_ascii_digit(
                next->0,
            ) {
                base.push(':')
            } else {
                base.push('：')
            }
        } else {
            base.push(c)
        }
    } else {
        out.push(c)
    }
}

pub open spec fn next_char(s: Seq<char>, i: int) -> Option<char> {
    if i + 1 < s.len() {
        Some(s[i + 1])
    } else {
        None
    }
}

/// The custom conversion of the first `n` characters of `s`.
pub open spec fn custom_pass(s: Seq<char>, n: nat, in_heading: bool) -> Seq<char>
    decreases n,
{
    if n == 0 {
        Seq::empty()
    } else {
        custom_step(
            custom_pass(s, (n - 1) as nat, in_heading),
            s[n - 1],
            next_char(s, n - 1),
            in_heading,
        )
    }
}

/// The custom conversion of a text: HTML entities decoded, characters mapped
/// by the conversion table, then spacing and punctuation normalised.
pub open spec fn custom_convert_spec(text: Seq<char>, in_heading: bool) -> Seq<char> {
    if text.len() == 0 {
        Seq::empty()
    } else {
        let mapped = map_chars(decoded_html_entities(text), convert_table());
        custom_pass(mapped, mapped.len(), in_heading)
    }
}

fn do_custom_convert(c: char, next_c: Option<char>, result: &mut Vec<char>, in_heading: bool)
    ensures
        final(result)@ == custom_step(old(result)@, c, next_c, in_heading),
{
    let space = ' ';
    let has_last = result.len() > 0;
    let last = if has_last {
        result[result.len() - 1]
    } else {
        ' '
    };

    if c == '\u{200B}' || c == '\u{200C}' || c == '\u{200D}' || c == '\u{2060}' || c == '\u{FEFF}'
        || c.is_control() {
        // invisible characters are dropped
    } else if c.is_whitespace() {
        if has_last && !is_punctuation(last) {
            result.push(space);
        }
    } else if is_punctuation(c) {
        if !in_heading && has_last && last.is_whitespace() {
            result.pop();
        }
        if c == ':' {
            let next_is_digit = match next_c {
                Some(n) => n.is_ascii_digit(),
                None => false,
            };
            if has_last && last.is_ascii_digit() && next_is_digit {
                result.push(':');
            } else {
                result.push('：');
            }
        } else {
            result.push(c);
        }
    } else {
        result.push(c);
    }
}

fn map_with(chars: &Vec<char>, table: &CharMap) -> (r: Vec<char>)
    ensures
        r@ == map_chars(chars@, char_map_contents(*table)),
{
    let mut r: Vec<char> = Vec::new();
    let mut i: usize = 0;
    while i < chars.len()
        invariant
            i <= chars.len(),
            r@ == map_chars(chars@.take(i as int), char_map_contents(*table)),
        decreases chars.len() - i,
    {
        let c = chars[i];
        match table.get(c) {
            Some(new) => r.push(new),
            None => r.push(c),
        }
        i += 1;
        assert(chars@.take(i as int) =~= chars@.take(i - 1).push(c));
    }
    assert(chars@.take(chars.len() as int) =~= chars@);
    r
}

/// The custom conversion of `text`.
pub fn custom_convert(text: &str, in_heading: bool) -> (r: Vec<char>)
    ensures
        r@ == custom_convert_spec(text@, in_heading),
{
    if text.is_empty() {
        return Vec::new();
    }
    let decoded = decode_html_entities(text);
    let table = convert_map();
    let s = map_with(&chars_of(decoded.as_str()), &table);

    let mut result: Vec<char> = Vec::new();
    let mut i: usize = 0;
    while i < s.len()
        invariant
            i <= s.len(),
            result@ == custom_pass(s@, i as nat, in_heading),
        decreases s.len() - i,
    {
        let next_c = if i + 1 < s.len() {
            Some(s[i + 1])
        } else {
            None
        };
        do_custom_convert(s[i], next_c, &mut result, in_heading);
        i += 1;
    }
    result
}

/// The conversion of a text by `converts`, where `opencc` is what the OpenCC
/// chain of `spec_opencc_mode(converts)` gave for the text (it is not read when
/// the conversions ask for no OpenCC chain).
pub open spec fn convert_text_spec(
    text: Seq<char>,
    converts: Seq<Convert>,
    in_heading: bool,
    opencc: Seq<char>,
) -> Seq<char> {
    if converts.len() == 0 {
        text
    } else {
        let base = if spec_opencc_mode(converts) is Some {
            opencc
        } else {
            Seq::empty()
        };
        if converts.contains(Convert::CUSTOM) {
            let source = if base.len() == 0 {
                text
            } else {
                base
            };
            let custom = custom_convert_spec(source, in_heading);
            let simplified = if converts.contains(Convert::JP2T2S) || converts.contains(
                Convert::T2S,
            ) {
                map_chars(custom, t2s_table())
            } else {
                custom
            };
            trim_spec(simplified)
        } else {
            trim_spec(base)
        }
    }
}

/// The conversion of `text` by `converts`, given the output of the OpenCC step.
pub fn convert_text(text: &str, converts: &[Convert], in_heading: bool, opencc_output: &str) -> (r:
    String)
    ensures
        r@ == convert_text_spec(text@, converts@, in_heading, opencc_output@),
{
    if converts.len() == 0 {
        return text.to_owned();
    }
    let use_opencc = opencc_mode(converts).is_some();
    let mut result: Vec<char> = if use_opencc {
        chars_of(opencc_output)
    } else {
        Vec::new()
    };
    if contains_convert(converts, Convert::CUSTOM) {
        if result.len() == 0 {
            result = custom_convert(text, in_heading);
        } else {
            result = custom_convert(opencc_output, in_heading);
        }
        if contains_convert(converts, Convert::JP2T2S) || contains_convert(converts, Convert::T2S) {
            let t2s = convert_t2s_map();
            result = map_with(&result, &t2s);
        }
    }
    string_of(trim_chars(&result).as_slice())
}

/// A call of the OpenCC chain `mode` on `text` gave `output`.
pub open spec fn opencc_gave<F: Fn(OpenccMode, &String) -> Result<String, ConvertError>>(
    opencc: F,
    mode: OpenccMode,
    text: String,
    output: String,
) -> bool {
    call_ensures(opencc, (mode, &text), Ok::<String, ConvertError>(output))
}

/// `new` is the conversion of `old` by `converts`, with an output of `opencc`
/// for the OpenCC step where the conversions ask for one.
pub open spec fn text_converted<F: Fn(OpenccMode, &String) -> Result<String, ConvertError>>(
    opencc: F,
    converts: Seq<Convert>,
    in_heading: bool,
    old: String,
    new: String,
) -> bool {
    match spec_opencc_mode(converts) {
        None => new@ == convert_text_spec(old@, converts, in_heading, Seq::empty()),
        Some(mode) => converts.len() > 0 && exists|output: String|
            opencc_gave(opencc, mode, old, output) && new@ == convert_text_spec(
                old@,
                converts,
                in_heading,
                output@,
            ),
    }
}

/// The OpenCC chain that `converts` asks for, called on `text`, failed with
/// the error `e`.
pub open spec fn opencc_failed<F: Fn(OpenccMode, &String) -> Result<String, ConvertError>>(
    opencc: F,
    converts: Seq<Convert>,
    text: String,
    e: ConvertError,
) -> bool {
    spec_opencc_mode(converts) matches Some(mode) && call_ensures(
        opencc,
        (mode, &text),
        Err::<String, ConvertError>(e),
    )
}

/// The OpenCC chain that `converts` asks for failed with `e` on a string that
/// holds `text`.
pub open spec fn opencc_failed_on<F: Fn(OpenccMode, &String) -> Result<String, ConvertError>>(
    opencc: F,
    converts: Seq<Convert>,
    text: Seq<char>,
    e: ConvertError,
) -> bool {
    exists|s: String| s@ == text && #[trigger] opencc_failed(opencc, converts, s, e)
}

pub open spec fn opencc_callable<F: Fn(OpenccMode, &String) -> Result<String, ConvertError>>(
    opencc: F,
) -> bool {
    forall|mode: OpenccMode, text: &String| call_requires(opencc, (mode, text))
}

/// The conversion of `text` by `converts`; `opencc` runs an OpenCC chain.
/// OpenCC is called only when the conversions ask for a chain, and an error
/// can only come from it.
pub fn convert_str<F: Fn(OpenccMode, &String) -> Result<String, ConvertError>>(
    text: &String,
    converts: &[Convert],
    in_heading: bool,
    opencc: &F,
) -> (r: Result<String, ConvertError>)
    requires
        opencc_callable(*opencc),
    ensures
        converts@.len() == 0 ==> r == Ok::<String, ConvertError>(*text),
        spec_opencc_mode(converts@) is None ==> r is Ok,
        r matches Ok(new) ==> text_converted(*opencc, converts@, in_heading, *text, new),
        r matches Err(e) ==> opencc_failed(*opencc, converts@, *text, e),
{
    if converts.len() == 0 {
        return Ok(text.clone());
    }
    match opencc_mode(converts) {
        Some(mode) => {
            let output = opencc(mode, text)?;
            let r = convert_text(text.as_str(), converts, in_heading, output.as_str());
            assert(opencc_gave(*opencc, mode, *text, output));
            Ok(r)
        },
        None => Ok(convert_text(text.as_str(), converts, in_heading, "")),
    }
}

/// `new` is the text `old` converted by `converts`.
pub open spec fn seq_converted<F: Fn(OpenccMode, &String) -> Result<String, ConvertError>>(
    opencc: F,
    converts: Seq<Convert>,
    in_heading: bool,
    old: Seq<char>,
    new: String,
) -> bool {
    exists|s: String| s@ == old && text_converted(opencc, converts, in_heading, s, new)
}

/// The conversion of `text` by `converts`, as `convert_str` makes it.
pub fn convert_text_of<F: Fn(OpenccMode, &String) -> Result<String, ConvertError>>(
    text: &str,
    converts: &[Convert],
    in_heading: bool,
    opencc: &F,
) -> (r: Result<String, ConvertError>)
    requires
        opencc_callable(*opencc),
    ensures
        converts@.len() == 0 ==> (r matches Ok(new) && new@ == text@),
        spec_opencc_mode(converts@) is None ==> r is Ok,
        r matches Ok(new) ==> seq_converted(*opencc, converts@, in_heading, text@, new),
        r matches Err(e) ==> opencc_failed_on(*opencc, converts@, text@, e),
{
    let s = text.to_string();
    convert_str(&s, converts, in_heading, opencc)
}

/// A character that can stand in custom-converted text: visible, and a plain
/// space if it is whitespace at all.
pub open spec fn is_clean_char(c: char) -> bool {
    !is_invisible(c) && (spec_is_whitespace(c) ==> c == ' ')
}

pub open spec fn is_clean_text(s: Seq<char>) -> bool {
    forall|i: int| 0 <= i < s.len() ==> is_clean_char(#[trigger] s[i])
}

/// Neither the first nor the last character of `s` is whitespace.
pub open spec fn has_no_edge_whitespace(s: Seq<char>) -> bool {
    s.len() > 0 ==> !spec_is_whitespace(s[0]) && !spec_is_whitespace(s.last())
}

/// No whitespace stands right after a punctuation mark in `s`.
pub open spec fn no_space_after_punctuation(s: Seq<char>) -> bool {
    forall|i: int|
        0 <= i && i + 1 < s.len() && spec_is_punctuation(#[trigger] s[i]) ==> !spec_is_whitespace(
            s[i + 1],
        )
}

proof fn punctuation_is_not_space(c: char)
    requires
        spec_is_punctuation(c),
    ensures
        !spec_is_whitespace(c),
{
}

proof fn custom_pass_no_space_after_punctuation(s: Seq<char>, n: nat, in_heading: bool)
    requires
        n <= s.len(),
    ensures
        no_space_after_punctuation(custom_pass(s, n, in_heading)),
    decreases n,
{
    if n > 0 {
        custom_pass_no_space_after_punctuation(s, (n - 1) as nat, in_heading);
        let out = custom_pass(s, (n - 1) as nat, in_heading);
        let r = custom_pass(s, n, in_heading);
        let c = s[n - 1];
        if is_invisible(c) {
            assert(r == out);
        } else if spec_is_whitespace(c) {
            if out.len() > 0 && !spec_is_punctuation(out.last()) {
                assert(r == out.push(' '));
                assert forall|i: int|
                    0 <= i && i + 1 < r.len() && spec_is_punctuation(#[trigger] r[i]) implies !spec_is_whitespace(r[i + 1]) by {
                    if i + 1 < out.len() {
                        assert(r[i] == out[i] && r[i + 1] == out[i + 1]);
                    }
                }
            } else {
                assert(r == out);
            }
        } else if spec_is_punctuation(c) {
            let base = if !in_heading && out.len() > 0 && spec_is_whitespace(out.last()) {
                out.drop_last()
            } else {
                out
            };
            let x = r.last();
            assert(r == base.push(x));
            assert(x == c || x == ':' || x == '：');
            assert(spec_is_punctuation(x));
            punctuation_is_not_space(x);
            assert forall|i: int|
                0 <= i && i + 1 < r.len() && spec_is_punctuation(#[trigger] r[i]) implies !spec_is_whitespace(r[i + 1]) by {
                if i + 1 < base.len() {
                    assert(r[i] == out[i] && r[i + 1] == out[i + 1]);
                }
            }
        } else {
            assert(r == out.push(c));
            assert forall|i: int|
                0 <= i && i + 1 < r.len() && spec_is_punctuation(#[trigger] r[i]) implies !spec_is_whitespace(r[i + 1]) by {
                if i + 1 < out.len() {
                    assert(r[i] == out[i] && r[i + 1] == out[i + 1]);
                }
            }
        }
    }
}

/// The custom conversion leaves no whitespace right after a punctuation
/// mark: whitespace that follows one in the text is dropped.
pub proof fn custom_conversion_drops_space_after_punctuation(text: Seq<char>, in_heading: bool)
    ensures
        no_space_after_punctuation(custom_convert_spec(text, in_heading)),
{
    if text.len() > 0 {
        let mapped = map_chars(decoded_html_entities(text), convert_table());
        custom_pass_no_space_after_punctuation(mapped, mapped.len(), in_heading);
    }
}

proof fn custom_pass_is_clean(s: Seq<char>, n: nat, in_heading: bool)
    requires
        n <= s.len(),
    ensures
        is_clean_text(custom_pass(s, n, in_heading)),
    decreases n,
{
    if n > 0 {
        custom_pass_is_clean(s, (n - 1) as nat, in_heading);
        let out = custom_pass(s, (n - 1) as nat, in_heading);
        let r = custom_pass(s, n, in_heading);
        let c = s[n - 1];
        assert(is_clean_char(' '));
        assert(is_clean_char(':'));
        assert(is_clean_char('：'));
        if !is_invisible(c) && !spec_is_whitespace(c) {
            if spec_is_punctuation(c) {
                let base = if !in_heading && out.len() > 0 && spec_is_whitespace(out.last()) {
                    out.drop_last()
                } else {
                    out
                };
                let x = if c == ':' {
                    r.last()
                } else {
                    c
                };
                assert(r == base.push(x));
                assert(is_clean_char(x));
            } else {
                assert(r == out.push(c));
                assert(is_clean_char(c));
            }
        }
        assert forall|i: int| 0 <= i < r.len() implies is_clean_char(#[trigger] r[i]) by {
            if i < r.len() - 1 || r == out {
                assert(r[i] == out[i]);
            }
        }
    }
}

proof fn t2s_keeps_clean(s: Seq<char>)
    requires
        is_clean_text(s),
    ensures
        is_clean_text(map_chars(s, t2s_table())),
{
    let r = map_chars(s, t2s_table());
    assert forall|i: int| 0 <= i < r.len() implies is_clean_char(#[trigger] r[i]) by {
        let c = s[i];
        if t2s_table().dom().contains(c) {
            map_of_pairs_values(t2s_pairs(), c);
            let k = choose|k: int|
                0 <= k < t2s_pairs().len() && t2s_pairs()[k].1 == t2s_table()[c];
            assert(is_clean_char(t2s_pairs()[k].1));
        }
    }
}

/// Every converted text is trimmed: it neither starts nor ends with
/// whitespace. Where the conversions include the custom one, the text holds
/// no zero-width, byte-order-mark or control character, and its only
/// whitespace is plain spaces.
pub proof fn converted_text_is_tidy(
    text: Seq<char>,
    converts: Seq<Convert>,
    in_heading: bool,
    opencc: Seq<char>,
)
    requires
        converts.len() > 0,
    ensures
        has_no_edge_whitespace(convert_text_spec(text, converts, in_heading, opencc)),
        converts.contains(Convert::CUSTOM) ==> is_clean_text(
            convert_text_spec(text, converts, in_heading, opencc),
        ),
{
    let base = if spec_opencc_mode(converts) is Some {
        opencc
    } else {
        Seq::empty()
    };
    if converts.contains(Convert::CUSTOM) {
        let source = if base.len() == 0 {
            text
        } else {
            base
        };
        let custom = custom_convert_spec(source, in_heading);
        if source.len() > 0 {
            let mapped = map_chars(decoded_html_entities(source), convert_table());
            custom_pass_is_clean(mapped, mapped.len(), in_heading);
        }
        let simplified = if converts.contains(Convert::JP2T2S) || converts.contains(Convert::T2S) {
            t2s_keeps_clean(custom);
            map_chars(custom, t2s_table())
        } else {
            custom
        };
        trim_keeps_a_stretch(simplified);
        let r = trim_spec(simplified);
        let (a, b) = choose|a: int, b: int|
            0 <= a <= b <= simplified.len() && r == simplified.subrange(a, b);
        assert forall|i: int| 0 <= i < r.len() implies is_clean_char(#[trigger] r[i]) by {
            assert(r[i] == simplified[a + i]);
        }
    } else {
        trim_keeps_a_stretch(base);
    }
}

/// A text converted by at least one conversion neither starts nor ends with
/// whitespace; with the custom conversion among them it is clean as well.
pub proof fn converted_string_is_tidy<F: Fn(OpenccMode, &String) -> Result<String, ConvertError>>(
    opencc: F,
    converts: Seq<Convert>,
    in_heading: bool,
    old: String,
    new: String,
)
    requires
        converts.len() > 0,
        text_converted(opencc, converts, in_heading, old, new),
    ensures
        has_no_edge_whitespace(new@),
        converts.contains(Convert::CUSTOM) ==> is_clean_text(new@),
{
    match spec_opencc_mode(converts) {
        None => {
            converted_text_is_tidy(old@, converts, in_heading, Seq::empty());
        },
        Some(mode) => {
            let output = choose|output: String|
                opencc_gave(opencc, mode, old, output) && new@ == convert_text_spec(
                    old@,
                    converts,
                    in_heading,
                    output@,
                );
            converted_text_is_tidy(old@, converts, in_heading, output@);
        },
    }
}

} // verus!
