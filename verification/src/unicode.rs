use vstd::prelude::*;

verus! {

/// A code point lies in the closed range `[min, max]`.
pub open spec fn in_char_range(c: char, min: char, max: char) -> bool {
    (min as u32) <= (c as u32) <= (max as u32)
}

/// CJK unified ideographs, their extensions, the compatibility ideographs
/// that are unified ideographs, and U+3007.
pub open spec fn spec_is_cjk(c: char) -> bool {
    ||| c == '\u{3007}'
    ||| in_char_range(c, '\u{3400}', '\u{4DBF}')
    ||| in_char_range(c, '\u{4E00}', '\u{9FFF}')
    ||| in_char_range(c, '\u{FA0E}', '\u{FA0F}')
    ||| c == '\u{FA11}'
    ||| in_char_range(c, '\u{FA13}', '\u{FA14}')
    ||| c == '\u{FA1F}'
    ||| c == '\u{FA21}'
    ||| in_char_range(c, '\u{FA23}', '\u{FA24}')
    ||| in_char_range(c, '\u{FA27}', '\u{FA29}')
    ||| in_char_range(c, '\u{20000}', '\u{2A6DF}')
    ||| in_char_range(c, '\u{2A700}', '\u{2B739}')
    ||| in_char_range(c, '\u{2B740}', '\u{2B81D}')
    ||| in_char_range(c, '\u{2B820}', '\u{2CEA1}')
    ||| in_char_range(c, '\u{2CEB0}', '\u{2EBE0}')
    ||| in_char_range(c, '\u{2EBF0}', '\u{2EE5F}')
    ||| in_char_range(c, '\u{30000}', '\u{3134A}')
    ||| in_char_range(c, '\u{31350}', '\u{323AF}')
}

/// Punctuation marks of Chinese text.
pub open spec fn spec_is_chinese_punctuation(c: char) -> bool {
    ||| c == '。' ||| c == '？' ||| c == '！'
    ||| c == '，' ||| c == '、' ||| c == '；'
    ||| c == '：' ||| c == '“' ||| c == '”'
    ||| c == '『' ||| c == '』' ||| c == '‘'
    ||| c == '’' ||| c == '「' ||| c == '」'
    ||| c == '（' ||| c == '）' ||| c == '［'
    ||| c == '］' ||| c == '〔' ||| c == '〕'
    ||| c == '【' ||| c == '】' ||| c == '—'
    ||| c == '…' ||| c == '－' ||| c == '-'
    ||| c == '～' ||| c == '·' ||| c == '《'
    ||| c == '》' ||| c == '〈' ||| c == '〉'
    ||| c == '﹏' ||| c == '＿' ||| c == '.'
}

/// Punctuation marks of English text.
pub open spec fn spec_is_english_punctuation(c: char) -> bool {
    ||| c == '.' ||| c == '?' ||| c == '!'
    ||| c == ',' ||| c == ':' ||| c == '…'
    ||| c == ';' ||| c == '-' ||| c == '–'
    ||| c == '—' ||| c == '(' ||| c == ')'
    ||| c == '[' ||| c == ']' ||| c == '{'
    ||| c == '}' ||| c == '"' ||| c == '\''
    ||| c == '/'
}

pub open spec fn spec_is_punctuation(c: char) -> bool {
    spec_is_chinese_punctuation(c) || spec_is_english_punctuation(c)
}

/// Whether `c` is a CJK ideograph.
pub fn is_cjk(c: char) -> (r: bool)
    ensures
        r == spec_is_cjk(c),
{
    c == '\u{3007}' || range(c, '\u{3400}', '\u{4DBF}') || range(c, '\u{4E00}', '\u{9FFF}')
        || range(c, '\u{FA0E}', '\u{FA0F}') || c == '\u{FA11}' || range(
        c,
        '\u{FA13}',
        '\u{FA14}',
    ) || c == '\u{FA1F}' || c == '\u{FA21}' || range(c, '\u{FA23}', '\u{FA24}') || range(
        c,
        '\u{FA27}',
        '\u{FA29}',
    ) || range(c, '\u{20000}', '\u{2A6DF}') || range(c, '\u{2A700}', '\u{2B739}') || range(
        c,
        '\u{2B740}',
        '\u{2B81D}',
    ) || range(c, '\u{2B820}', '\u{2CEA1}') || range(c, '\u{2CEB0}', '\u{2EBE0}') || range(
        c,
        '\u{2EBF0}',
        '\u{2EE5F}',
    ) || range(c, '\u{30000}', '\u{3134A}') || range(c, '\u{31350}', '\u{323AF}')
}

fn range(c: char, min: char, max: char) -> (r: bool)
    ensures
        r == in_char_range(c, min, max),
{
    c >= min && c <= max
}

/// Whether `c` is a Chinese punctuation mark.
pub fn is_chinese_punctuation(c: char) -> (r: bool)
    ensures
        r == spec_is_chinese_punctuation(c),
{
    c == '。' || c == '？' || c == '！' || c == '，' || c == '、' || c == '；' || c == '：'
        || c == '“' || c == '”' || c == '『' || c == '』' || c == '‘' || c == '’' || c == '「'
        || c == '」' || c == '（' || c == '）' || c == '［' || c == '］' || c == '〔' || c == '〕'
        || c == '【' || c == '】' || c == '—' || c == '…' || c == '－' || c == '-' || c == '～'
        || c == '·' || c == '《' || c == '》' || c == '〈' || c == '〉' || c == '﹏' || c == '＿'
        || c == '.'
}

/// Whether `c` is an English punctuation mark.
pub fn is_english_punctuation(c: char) -> (r: bool)
    ensures
        r == spec_is_english_punctuation(c),
{
    c == '.' || c == '?' || c == '!' || c == ',' || c == ':' || c == '…' || c == ';' || c == '-'
        || c == '–' || c == '—' || c == '(' || c == ')' || c == '[' || c == ']' || c == '{'
        || c == '}' || c == '"' || c == '\'' || c == '/'
}

/// Whether `c` is a Chinese or an English punctuation mark.
pub fn is_punctuation(c: char) -> (r: bool)
    ensures
        r == (spec_is_chinese_punctuation(c) || spec_is_english_punctuation(c)),
{
    is_chinese_punctuation(c) || is_english_punctuation(c)
}

} // verus!
