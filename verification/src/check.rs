use vstd::prelude::*;

use crate::convert::Lang;
use crate::tables::{char_set_contents, CharSet};
use crate::markdown::{spec_parse_lang, parse_lang, Metadata};
use crate::text::{
    chars_of, spec_is_ascii_alphanumeric, string_of, trim_chars, trim_spec, views,
};

use pulldown_cmark::{DefaultBrokenLinkCallback, Event, Options, Tag, TextMergeWithOffset};
use crate::unicode::{is_cjk, is_punctuation, spec_is_cjk, spec_is_punctuation};

verus! {

/// The numerals of a chapter number.
pub open spec fn is_chapter_numeral(c: char) -> bool {
    ||| c == '零' ||| c == '一' ||| c == '二' ||| c == '三' ||| c == '四'
    ||| c == '五' ||| c == '六' ||| c == '七' ||| c == '八' ||| c == '九'
    ||| c == '十' ||| c == '百' ||| c == '千'
    ||| '0' <= c <= '9'
}

/// The numerals of a volume number.
pub open spec fn is_volume_numeral(c: char) -> bool {
    ||| c == '一' ||| c == '二' ||| c == '三' ||| c == '四' ||| c == '五'
    ||| c == '六' ||| c == '七' ||| c == '八' ||| c == '九' ||| c == '十'
    ||| '0' <= c <= '9'
}

/// The word after a chapter number: 章 (chapter) or 话 / 話 (episode).
pub open spec fn is_chapter_word(c: char, lang: Lang) -> bool {
    c == '章' || match lang {
        Lang::ZhHant => c == '話',
        Lang::ZhHans => c == '话',
    }
}

/// At `i`, `s` holds `第`, `k` numerals (one to `max`), the word `word`, a
/// space and a character that is not a line feed.
pub open spec fn title_with(
    s: Seq<char>,
    i: int,
    k: int,
    numeral: spec_fn(char) -> bool,
    max: int,
    word: spec_fn(char) -> bool,
) -> bool {
    &&& 1 <= k <= max
    &&& 0 <= i
    &&& i + k + 3 < s.len()
    &&& s[i] == '第'
    &&& forall|j: int| i + 1 <= j <= i + k ==> numeral(#[trigger] s[j])
    &&& word(s[i + k + 1])
    &&& s[i + k + 2] == ' '
    &&& s[i + k + 3] != '\n'
}

/// A heading of that shape starts at `i` in `s`.
pub open spec fn title_at(
    s: Seq<char>,
    i: int,
    numeral: spec_fn(char) -> bool,
    max: int,
    word: spec_fn(char) -> bool,
) -> bool {
    exists|k: int| #[trigger] title_with(s, i, k, numeral, max, word)
}

pub open spec fn chapter_numerals() -> spec_fn(char) -> bool {
    |c: char| is_chapter_numeral(c)
}

pub open spec fn volume_numerals() -> spec_fn(char) -> bool {
    |c: char| is_volume_numeral(c)
}

pub open spec fn chapter_words(lang: Lang) -> spec_fn(char) -> bool {
    |c: char| is_chapter_word(c, lang)
}

pub open spec fn volume_word() -> spec_fn(char) -> bool {
    |c: char| c == '卷'
}

/// A chapter heading starts at `i` in `title`.
pub open spec fn chapter_title_at(title: Seq<char>, i: int, lang: Lang) -> bool {
    title_at(title, i, chapter_numerals(), 7, chapter_words(lang))
}

/// A volume heading starts at `i` in `title`.
pub open spec fn volume_title_at(title: Seq<char>, i: int) -> bool {
    title_at(title, i, volume_numerals(), 3, volume_word())
}

/// Some part of `title` is a chapter heading: `第`, one to seven numerals, the
/// chapter word, a space, and a title.
pub open spec fn is_chapter_title(title: Seq<char>, lang: Lang) -> bool {
    exists|i: int| #[trigger] chapter_title_at(title, i, lang)
}

/// Some part of `title` is a volume heading: `第`, one to three numerals,
/// `卷`, a space, and a title.
pub open spec fn is_volume_title(title: Seq<char>) -> bool {
    exists|i: int| #[trigger] volume_title_at(title, i)
}

/// The title of the introduction.
pub open spec fn introduction_title(lang: Lang) -> Seq<char> {
    match lang {
        Lang::ZhHant => seq!['簡', '介'],
        Lang::ZhHans => seq!['简', '介'],
    }
}

fn chapter_numeral(c: char) -> (r: bool)
    ensures
        r == is_chapter_numeral(c),
{
    c == '零' || c == '一' || c == '二' || c == '三' || c == '四' || c == '五' || c == '六'
        || c == '七' || c == '八' || c == '九' || c == '十' || c == '百' || c == '千' || ('0'
        <= c && c <= '9')
}

fn volume_numeral(c: char) -> (r: bool)
    ensures
        r == is_volume_numeral(c),
{
    c == '一' || c == '二' || c == '三' || c == '四' || c == '五' || c == '六' || c == '七'
        || c == '八' || c == '九' || c == '十' || ('0' <= c && c <= '9')
}

fn title_numeral(chapter: bool, c: char) -> (r: bool)
    ensures
        r == (if chapter {
            is_chapter_numeral(c)
        } else {
            is_volume_numeral(c)
        }),
{
    if chapter {
        chapter_numeral(c)
    } else {
        volume_numeral(c)
    }
}

/// Scans `s` for a heading with numerals of the chapter kind (`chapter`) or of
/// the volume kind, at most `max` of them, followed by a word `word(lang)`.
fn find_title(s: &Vec<char>, chapter: bool, lang: Lang) -> (r: bool)
    ensures
        chapter ==> r == is_chapter_title(s@, lang),
        !chapter ==> r == is_volume_title(s@),
{
    let ghost numeral: spec_fn(char) -> bool = if chapter {
        chapter_numerals()
    } else {
        volume_numerals()
    };
    let ghost word: spec_fn(char) -> bool = if chapter {
        chapter_words(lang)
    } else {
        volume_word()
    };
    let max: usize = if chapter {
        7
    } else {
        3
    };
    let n = s.len();
    let mut i: usize = 0;
    while i < n
        invariant
            n == s.len(),
            i <= n,
            max == (if chapter {
                7usize
            } else {
                3usize
            }),
            numeral == (if chapter {
                chapter_numerals()
            } else {
                volume_numerals()
            }),
            word == (if chapter {
                chapter_words(lang)
            } else {
                volume_word()
            }),
            forall|x: int| 0 <= x < i ==> !title_at(s@, x, numeral, max as int, word),
        decreases n - i,
    {
        if s[i] == '第' {
            let mut r: usize = 0;
            while r <= max && r < n - 1 - i && title_numeral(chapter, s[i + 1 + r])
                invariant
                    n == s.len(),
                    i < n,
                    r <= max + 1,
                    max <= 7,
                    numeral == (if chapter {
                        chapter_numerals()
                    } else {
                        volume_numerals()
                    }),
                    forall|j: int| i + 1 <= j < i + 1 + r ==> numeral(#[trigger] s@[j]),
                decreases n - r,
            {
                r += 1;
            }
            if 1 <= r && r <= max && r + 3 < n - i {
                let w = s[i + r + 1];
                let is_word = if chapter {
                    w == '章' || match lang {
                        Lang::ZhHant => w == '話',
                        Lang::ZhHans => w == '话',
                    }
                } else {
                    w == '卷'
                };
                if is_word && s[i + r + 2] == ' ' && s[i + r + 3] != '\n' {
                    assert(title_with(s@, i as int, r as int, numeral, max as int, word));
                    assert(chapter ==> chapter_title_at(s@, i as int, lang));
                    assert(!chapter ==> volume_title_at(s@, i as int));
                    return true;
                }
            }
            assert(!title_at(s@, i as int, numeral, max as int, word)) by {
                if title_at(s@, i as int, numeral, max as int, word) {
                    let k = choose|k: int|
                        #[trigger] title_with(s@, i as int, k, numeral, max as int, word);
                    // the word is not a numeral, so the numerals end right before it
                    assert(!numeral(s@[i + k + 1]));
                    if r < k {
                        assert(numeral(s@[i + 1 + r]));
                    } else if r > k {
                        assert(numeral(s@[i + k + 1]));
                    }
                }
            }
        }
        i += 1;
    }
    assert(chapter ==> !is_chapter_title(s@, lang)) by {
        if chapter && is_chapter_title(s@, lang) {
            let x = choose|x: int| #[trigger] chapter_title_at(s@, x, lang);
            assert(!title_at(s@, x, numeral, max as int, word));
        }
    }
    assert(!chapter ==> !is_volume_title(s@)) by {
        if !chapter && is_volume_title(s@) {
            let x = choose|x: int| #[trigger] volume_title_at(s@, x);
            assert(!title_at(s@, x, numeral, max as int, word));
        }
    }
    false
}

/// Whether `title` holds a chapter heading in the format of `lang`.
pub fn check_chapter_title(title: &str, lang: Lang) -> (r: bool)
    ensures
        r == is_chapter_title(title@, lang),
{
    find_title(&chars_of(title), true, lang)
}

/// Whether `title` holds a volume heading, or is the introduction's title.
pub fn check_volume_title(title: &str, lang: Lang) -> (r: bool)
    ensures
        r == (is_volume_title(title@) || title@ == introduction_title(lang)),
{
    let s = chars_of(title);
    if find_title(&s, false, lang) {
        return true;
    }
    let first = match lang {
        Lang::ZhHant => '簡',
        Lang::ZhHans => '简',
    };
    let same = s.len() == 2 && s[0] == first && s[1] == '介';
    assert(same == (title@ == introduction_title(lang))) by {
        if title@ == introduction_title(lang) {
            assert(s@[0] == introduction_title(lang)[0]);
            assert(s@[1] == introduction_title(lang)[1]);
        }
        if same {
            assert(s@ =~= introduction_title(lang));
        }
    }
    same
}

/// A character expected in the text of a novel: an ideograph, a punctuation
/// mark, an ASCII letter or digit, or a space.
pub open spec fn is_regular_char(c: char) -> bool {
    spec_is_cjk(c) || spec_is_punctuation(c) || spec_is_ascii_alphanumeric(c) || c == ' '
}

/// The irregular characters of the first `n` characters of `s` that are not
/// in `seen`, each at its first occurrence, and `seen` with them added.
pub open spec fn irregular_scan(s: Seq<char>, n: nat, seen: Set<char>) -> (Seq<char>, Set<char>)
    decreases n,
{
    if n == 0 {
        (Seq::empty(), seen)
    } else {
        let (found, now_seen) = irregular_scan(s, (n - 1) as nat, seen);
        let c = s[n - 1];
        if !is_regular_char(c) && !now_seen.contains(c) {
            (found.push(c), now_seen.insert(c))
        } else {
            (found, now_seen)
        }
    }
}

/// The scan misses no irregular character: after the first `n` characters
/// of `s`, each of them that is irregular has been reported, now or before
/// (it is in the set of reported characters); and only irregular characters
/// of `s` are reported anew.
pub proof fn irregular_chars_all_reported(s: Seq<char>, n: nat, seen: Set<char>)
    requires
        n <= s.len(),
    ensures
        ({
            let (found, now_seen) = irregular_scan(s, n, seen);
            &&& forall|i: int|
                0 <= i < n && !is_regular_char(#[trigger] s[i]) ==> now_seen.contains(s[i])
            &&& seen.subset_of(now_seen)
            &&& forall|c: char|
                #[trigger] now_seen.contains(c) && !seen.contains(c) ==> !is_regular_char(c)
                    && exists|i: int| 0 <= i < n && s[i] == c
        }),
    decreases n,
{
    if n > 0 {
        irregular_chars_all_reported(s, (n - 1) as nat, seen);
        let (found, now_seen) = irregular_scan(s, (n - 1) as nat, seen);
        let c = s[n - 1];
        let (found2, now2) = irregular_scan(s, n, seen);
        assert forall|x: char| #[trigger] now2.contains(x) && !seen.contains(x) implies !is_regular_char(x)
            && exists|i: int| 0 <= i < n && s[i] == x by {
            if now_seen.contains(x) {
                let i = choose|i: int| 0 <= i < n - 1 && s[i] == x;
                assert(0 <= i < n && s[i] == x);
            } else {
                assert(x == c);
                assert(s[n - 1] == x);
            }
        }
    }
}

/// A check reports each irregular character once: the characters found are
/// irregular, none was reported before, none is found twice, and afterwards
/// the reported characters are those of before and those found.
pub proof fn irregular_chars_reported_once(s: Seq<char>, n: nat, seen: Set<char>)
    requires
        n <= s.len(),
    ensures
        ({
            let (found, now_seen) = irregular_scan(s, n, seen);
            &&& forall|i: int|
                0 <= i < found.len() ==> !is_regular_char(#[trigger] found[i]) && !seen.contains(
                    found[i],
                )
            &&& forall|i: int, j: int|
                0 <= i < j < found.len() ==> #[trigger] found[i] != #[trigger] found[j]
            &&& now_seen == seen + found.to_set()
        }),
    decreases n,
{
    if n > 0 {
        irregular_chars_reported_once(s, (n - 1) as nat, seen);
        let (found, now_seen) = irregular_scan(s, (n - 1) as nat, seen);
        let c = s[n - 1];
        if !is_regular_char(c) && !now_seen.contains(c) {
            let f = found.push(c);
            assert forall|i: int| 0 <= i < f.len() implies !is_regular_char(#[trigger] f[i])
                && !seen.contains(f[i]) by {
                if i < found.len() {
                    assert(f[i] == found[i]);
                }
            }
            assert forall|i: int, j: int| 0 <= i < j < f.len() implies #[trigger] f[i]
                != #[trigger] f[j] by {
                if j == f.len() - 1 {
                    assert(f[i] == found[i]);
                    assert(found.to_set().contains(found[i]));
                } else {
                    assert(f[i] == found[i] && f[j] == found[j]);
                }
            }
            assert forall|x: char| f.to_set().contains(x) <==> found.to_set().insert(c).contains(
                x,
            ) by {
                if f.contains(x) {
                    let i = choose|i: int| 0 <= i < f.len() && f[i] == x;
                    if i < found.len() {
                        assert(found[i] == x);
                        assert(found.contains(x));
                    }
                }
                if found.contains(x) {
                    let i = choose|i: int| 0 <= i < found.len() && found[i] == x;
                    assert(f[i] == x);
                    assert(f.contains(x));
                }
                if x == c {
                    assert(f[f.len() - 1] == x);
                    assert(f.contains(x));
                }
            }
            assert(f.to_set() =~= found.to_set().insert(c));
            assert(now_seen.insert(c) =~= seen + f.to_set());
        }
    } else {
        assert(Seq::<char>::empty().to_set() =~= Set::<char>::empty());
        assert(seen + Set::<char>::empty() =~= seen);
    }
}

/// The irregular characters of `text` not reported before, in the order of
/// their first occurrence; they are added to `seen`.
pub fn irregular_chars(text: &str, seen: &mut CharSet) -> (r: Vec<char>)
    ensures
        (r@, char_set_contents(*final(seen))) == irregular_scan(
            text@,
            text@.len(),
            char_set_contents(*old(seen)),
        ),
{
    let s = chars_of(text);
    let mut found: Vec<char> = Vec::new();
    let mut i: usize = 0;
    while i < s.len()
        invariant
            i <= s.len(),
            s@ == text@,
            (found@, char_set_contents(*seen)) == irregular_scan(
                text@,
                i as nat,
                char_set_contents(*old(seen)),
            ),
        decreases s.len() - i,
    {
        let c = s[i];
        if !is_cjk(c) && !is_punctuation(c) && !c.is_ascii_alphanumeric() && c != ' ' {
            if !seen.contains(c) {
                seen.insert(c);
                found.push(c);
            }
        }
        i += 1;
    }
    found
}

/// `s` without its leading `#` characters.
pub open spec fn trim_hashes(s: Seq<char>) -> Seq<char>
    decreases s.len(),
{
    if s.len() > 0 && s[0] == '#' {
        trim_hashes(s.drop_first())
    } else {
        s
    }
}

/// The title of a heading, from the heading's markdown source.
pub open spec fn heading_title(source: Seq<char>) -> Seq<char> {
    trim_spec(trim_hashes(source))
}

fn heading_title_of(source: &str) -> (r: String)
    ensures
        r@ == heading_title(source@),
{
    let s = chars_of(source);
    let mut i: usize = 0;
    assert(s@.subrange(0, s@.len() as int) =~= s@);
    while i < s.len() && s[i] == '#'
        invariant
            i <= s.len(),
            s@ == source@,
            trim_hashes(s@) == trim_hashes(s@.subrange(i as int, s@.len() as int)),
        decreases s.len() - i,
    {
        assert(s@.subrange(i as int, s@.len() as int).drop_first() =~= s@.subrange(
            i + 1,
            s@.len() as int,
        ));
        i += 1;
    }
    let mut rest: Vec<char> = Vec::new();
    let mut j: usize = i;
    while j < s.len()
        invariant
            i <= j <= s.len(),
            rest@ == s@.subrange(i as int, j as int),
        decreases s.len() - j,
    {
        rest.push(s[j]);
        j += 1;
        assert(s@.subrange(i as int, j as int) =~= s@.subrange(i as int, j - 1).push(s@[j - 1]));
    }
    string_of(trim_chars(&rest).as_slice())
}

fn trimmed(source: &str) -> (r: String)
    ensures
        r@ == trim_spec(source@),
{
    string_of(trim_chars(&chars_of(source)).as_slice())
}

/// An event of the markdown parser, as the check reads it. `source` is the
/// markdown text that the event spans.
pub enum CheckEvent {
    Heading { level: u8, source: String },
    Image { dest_url: String },
    Paragraph,
    /// Another start tag; `tag` names it.
    OtherTag { tag: String, source: String },
    Text { text: String, source: String },
    End,
    /// Another event; `event` names it.
    OtherEvent { event: String, source: String },
}

/// A finding of the check.
pub enum CheckWarning {
    IrregularVolumeTitle(String),
    IrregularChapterTitle(String),
    IrregularHeadingLevel { level: u8, title: String },
    MissingImage(String),
    UnexpectedTag { tag: String, content: String },
    IrregularChar(char, String),
    UnexpectedEvent { event: String, content: String },
}

/// `w` reports the irregular character `c` in a text whose source is `content`.
pub open spec fn is_char_warning(w: CheckWarning, c: char, content: Seq<char>) -> bool {
    match w {
        CheckWarning::IrregularChar(wc, wcontent) => wc == c && wcontent@ == content,
        _ => false,
    }
}

fn char_warning(ch: char, content: String) -> (w: CheckWarning)
    ensures
        w == CheckWarning::IrregularChar(ch, content),
{
    CheckWarning::IrregularChar(ch, content)
}

fn char_warnings(found: &Vec<char>, source: &String) -> (r: Vec<CheckWarning>)
    ensures
        r@.len() == found@.len(),
        forall|j: int|
            0 <= j < found@.len() ==> is_char_warning(#[trigger] r@[j], found@[j], trim_spec(source@)),
{
    let mut r: Vec<CheckWarning> = Vec::new();
    let mut k: usize = 0;
    while k < found.len()
        invariant
            k <= found.len(),
            r@.len() == k,
            forall|j: int|
                0 <= j < k ==> is_char_warning(#[trigger] r@[j], found@[j], trim_spec(source@)),
        decreases found.len() - k,
    {
        let content = trimmed(source.as_str());
        let w = char_warning(found[k], content);
        r.push(w);
        k += 1;
    }
    r
}

/// `r` is what the check finds for `event`, and `after` the characters
/// reported once it is done, where `before` were reported already; an image
/// exists as `image_exists` says.
pub open spec fn event_checked(
    event: CheckEvent,
    image_exists: bool,
    lang: Lang,
    basic_check: bool,
    before: Set<char>,
    after: Set<char>,
    r: Seq<CheckWarning>,
) -> bool {
    &&& !(event is Text) ==> after == before
    &&& match event {
        CheckEvent::Heading { level, source } => {
            let title = heading_title(source@);
            if level == 1 {
                if is_volume_title(title) || title == introduction_title(lang) {
                    r.len() == 0
                } else {
                    r.len() == 1 && (r[0] matches CheckWarning::IrregularVolumeTitle(t)
                        && t@ == title)
                }
            } else if level == 2 {
                if is_chapter_title(title, lang) {
                    r.len() == 0
                } else {
                    r.len() == 1 && (r[0] matches CheckWarning::IrregularChapterTitle(t)
                        && t@ == title)
                }
            } else {
                r.len() == 1 && (r[0] matches CheckWarning::IrregularHeadingLevel {
                    level: l,
                    title: t,
                } && l == level && t@ == title)
            }
        },
        CheckEvent::Image { dest_url } => if image_exists {
            r.len() == 0
        } else {
            r.len() == 1 && (r[0] matches CheckWarning::MissingImage(u) && u@ == dest_url@)
        },
        CheckEvent::Paragraph => r.len() == 0,
        CheckEvent::End => r.len() == 0,
        CheckEvent::OtherTag { tag, source } => if basic_check {
            r.len() == 0
        } else {
            r.len() == 1 && (r[0] matches CheckWarning::UnexpectedTag { tag: t, content: c }
                && t@ == tag@ && c@ == trim_spec(source@))
        },
        CheckEvent::OtherEvent { event, source } => if basic_check {
            r.len() == 0
        } else {
            r.len() == 1 && (r[0] matches CheckWarning::UnexpectedEvent {
                event: e,
                content: c,
            } && e@ == event@ && c@ == trim_spec(source@))
        },
        CheckEvent::Text { text, source } => if basic_check {
            r.len() == 0 && after == before
        } else {
            let (found, now_seen) = irregular_scan(
                text@,
                text@.len(),
                before,
            );
            &&& after == now_seen
            &&& r.len() == found.len()
            &&& forall|k: int|
                0 <= k < found.len() ==> is_char_warning(#[trigger] r[k], found[k], trim_spec(source@))
        },
    }
}

/// The findings of the check for one event (where it is an image, whether
/// its file exists is `image_exists`), and the characters reported so far
/// (`seen` before, `char_set_contents(*final(seen))` after).
pub fn check_event(
    event: &CheckEvent,
    image_exists: bool,
    lang: Lang,
    basic_check: bool,
    seen: &mut CharSet,
) -> (r: Vec<CheckWarning>)
    ensures
        event_checked(
            *event,
            image_exists,
            lang,
            basic_check,
            char_set_contents(*old(seen)),
            char_set_contents(*final(seen)),
            r@,
        ),
{
    let mut r: Vec<CheckWarning> = Vec::new();
    match event {
        CheckEvent::Heading { level, source } => {
            let title = heading_title_of(source.as_str());
            if *level == 1 {
                if !check_volume_title(title.as_str(), lang) {
                    r.push(CheckWarning::IrregularVolumeTitle(title));
                }
            } else if *level == 2 {
                if !check_chapter_title(title.as_str(), lang) {
                    r.push(CheckWarning::IrregularChapterTitle(title));
                }
            } else {
                r.push(CheckWarning::IrregularHeadingLevel { level: *level, title });
            }
        },
        CheckEvent::Image { dest_url } => {
            if !image_exists {
                r.push(CheckWarning::MissingImage(dest_url.clone()));
            }
        },
        CheckEvent::Paragraph => {},
        CheckEvent::End => {},
        CheckEvent::OtherTag { tag, source } => {
            if !basic_check {
                r.push(
                    CheckWarning::UnexpectedTag { tag: tag.clone(), content: trimmed(source.as_str()) },
                );
            }
        },
        CheckEvent::OtherEvent { event, source } => {
            if !basic_check {
                r.push(
                    CheckWarning::UnexpectedEvent {
                        event: event.clone(),
                        content: trimmed(source.as_str()),
                    },
                );
            }
        },
        CheckEvent::Text { text, source } => {
            if !basic_check {
                let found = irregular_chars(text.as_str(), seen);
                r = char_warnings(&found, source);
            }
        },
    }
    r
}

/// The events after the metadata block of `markdown`, as `check_events_of`
/// tells them apart.
pub uninterp spec fn markdown_check_events(markdown: Seq<char>) -> Seq<CheckEvent>;

/// Runs the parser of `pulldown_cmark` (`TextMergeWithOffset::new_ext`, with
/// YAML-style metadata blocks on) over `markdown`, skips the three events of
/// its metadata block, and tells the others apart as `CheckEvent` does, one
/// for one, each with the text it spans (`Debug` names the other tags and
/// events). The events are a function of the text alone, and are named.
#[verifier::external_body]
fn check_events_of(markdown: &str) -> (r: Vec<CheckEvent>)
    ensures
        r@ == markdown_check_events(markdown@),
{
    let options = Options::ENABLE_YAML_STYLE_METADATA_BLOCKS;
    let parser = TextMergeWithOffset::<DefaultBrokenLinkCallback>::new_ext(markdown, options);
    parser.skip(3).map(|(event, range)| {
        let source = markdown[range].to_string();
        match event {
            Event::Start(Tag::Heading { level, .. }) => CheckEvent::Heading { level: level as u8, source },
            Event::Start(Tag::Image { dest_url, .. }) => CheckEvent::Image { dest_url: dest_url.into_string() },
            Event::Start(Tag::Paragraph) => CheckEvent::Paragraph,
            Event::Start(tag) => CheckEvent::OtherTag { tag: format!("{tag:?}"), source },
            Event::Text(text) => CheckEvent::Text { text: text.into_string(), source },
            Event::End(_) => CheckEvent::End,
            other => CheckEvent::OtherEvent { event: format!("{other:?}"), source },
        }
    }).collect()
}

/// The addresses of the images among the first `n` of `events`, in order.
pub open spec fn checked_image_urls(events: Seq<CheckEvent>, n: int) -> Seq<Seq<char>>
    decreases n,
{
    if n <= 0 {
        Seq::empty()
    } else {
        match events[n - 1] {
            CheckEvent::Image { dest_url } => checked_image_urls(events, n - 1).push(dest_url@),
            _ => checked_image_urls(events, n - 1),
        }
    }
}

proof fn checked_image_urls_grow(events: Seq<CheckEvent>, a: int, b: int)
    requires
        0 <= a <= b,
    ensures
        checked_image_urls(events, a).len() <= checked_image_urls(events, b).len(),
    decreases b,
{
    if a < b {
        checked_image_urls_grow(events, a, b - 1);
    }
}

/// Whether the event at `k` of `events` is an image whose file exists, where
/// `exist` says so of the images in order.
pub open spec fn image_exists_at(events: Seq<CheckEvent>, exist: Seq<bool>, k: int) -> bool {
    events[k] is Image && exist[checked_image_urls(events, k).len() as int]
}

/// The warnings of the first `n` of `parts`, one after another.
pub open spec fn joined(parts: Seq<Seq<CheckWarning>>, n: int) -> Seq<CheckWarning>
    decreases n,
{
    if n <= 0 {
        Seq::empty()
    } else {
        joined(parts, n - 1) + parts[n - 1]
    }
}

/// `r` is what the check finds for `events` in order, from no character
/// reported at the start, where the images exist as `exist` says in order.
pub open spec fn events_checked(
    events: Seq<CheckEvent>,
    exist: Seq<bool>,
    lang: Lang,
    basic_check: bool,
    r: Seq<CheckWarning>,
) -> bool {
    exists|parts: Seq<Seq<CheckWarning>>, seen: Seq<Set<char>>|
        #![trigger joined(parts, events.len() as int), seen[0]]
        {
            &&& parts.len() == events.len()
            &&& seen.len() == events.len() + 1
            &&& seen[0] == Set::<char>::empty()
            &&& forall|k: int|
                0 <= k < events.len() ==> event_checked(
                    events[k],
                    image_exists_at(events, exist, k),
                    lang,
                    basic_check,
                    seen[k],
                    seen[k + 1],
                    #[trigger] parts[k],
                )
            &&& r == joined(parts, events.len() as int)
        }
}

/// The addresses of the images that the check of `markdown` looks for, in
/// order.
pub fn check_image_urls(markdown: &str) -> (r: Vec<String>)
    ensures
        views(r@) == checked_image_urls(
            markdown_check_events(markdown@),
            markdown_check_events(markdown@).len() as int,
        ),
{
    let events = check_events_of(markdown);
    let mut r: Vec<String> = Vec::new();
    let mut k: usize = 0;
    while k < events.len()
        invariant
            events@ == markdown_check_events(markdown@),
            k <= events@.len(),
            views(r@) == checked_image_urls(events@, k as int),
        decreases events@.len() - k,
    {
        if let CheckEvent::Image { dest_url } = &events[k] {
            let ghost before = r@;
            r.push(dest_url.clone());
            assert(views(r@) =~= views(before).push(dest_url@));
        }
        k += 1;
    }
    r
}

/// What the check finds in the events after the metadata block of
/// `markdown`, in order, where `images_exist` says whether the file of each
/// image (those of `check_image_urls`) exists; `None` where it does not hold
/// one flag for each image.
pub fn check_markdown(markdown: &str, lang: Lang, basic_check: bool, images_exist: &Vec<bool>) -> (r:
    Option<Vec<CheckWarning>>)
    ensures
        ({
            let events = markdown_check_events(markdown@);
            if images_exist@.len() == checked_image_urls(events, events.len() as int).len() {
                r matches Some(w) && events_checked(events, images_exist@, lang, basic_check, w@)
            } else {
                r is None
            }
        }),
{
    let events = check_events_of(markdown);
    let urls = check_image_urls(markdown);
    if images_exist.len() != urls.len() {
        return None;
    }
    let image_count: usize = urls.len();
    let mut seen = CharSet::new();
    let mut r: Vec<CheckWarning> = Vec::new();
    let ghost mut parts: Seq<Seq<CheckWarning>> = Seq::empty();
    let ghost mut sets: Seq<Set<char>> = seq![char_set_contents(seen)];
    let mut image: usize = 0;
    let mut k: usize = 0;
    while k < events.len()
        invariant
            events@ == markdown_check_events(markdown@),
            image_count == images_exist@.len(),
            images_exist@.len() == checked_image_urls(events@, events@.len() as int).len(),
            k <= events@.len(),
            image == checked_image_urls(events@, k as int).len(),
            parts.len() == k,
            sets.len() == k + 1,
            sets[0] == Set::<char>::empty(),
            sets[k as int] == char_set_contents(seen),
            forall|j: int|
                0 <= j < k ==> event_checked(
                    events@[j],
                    image_exists_at(events@, images_exist@, j),
                    lang,
                    basic_check,
                    sets[j],
                    sets[j + 1],
                    #[trigger] parts[j],
                ),
            r@ == joined(parts, k as int),
        decreases events@.len() - k,
    {
        proof {
            checked_image_urls_grow(events@, k + 1, events@.len() as int);
        }
        let exists = match &events[k] {
            CheckEvent::Image { .. } => {
                let e = images_exist[image];
                image += 1;
                e
            },
            _ => false,
        };
        assert(exists == image_exists_at(events@, images_exist@, k as int));
        let mut found = check_event(&events[k], exists, lang, basic_check, &mut seen);
        let ghost old_parts = parts;
        let ghost old_r = r@;
        let ghost found_view = found@;
        proof {
            parts = parts.push(found@);
            sets = sets.push(char_set_contents(seen));
            joined_prefix(old_parts, parts, k as int);
            assert(joined(parts, k + 1) == joined(parts, k as int) + parts[k as int]);
        }
        r.append(&mut found);
        assert(r@ =~= old_r + found_view);
        k += 1;
    }
    proof {
        assert(events_checked(events@, images_exist@, lang, basic_check, r@)) by {
            assert(joined(parts, events@.len() as int) == r@);
        }
    }
    Some(r)
}

proof fn joined_prefix(a: Seq<Seq<CheckWarning>>, b: Seq<Seq<CheckWarning>>, n: int)
    requires
        0 <= n <= a.len(),
        n <= b.len(),
        forall|m: int| 0 <= m < n ==> a[m] == b[m],
    ensures
        joined(a, n) == joined(b, n),
    decreases n,
{
    if n > 0 {
        joined_prefix(a, b, n - 1);
    }
}

/// Why the metadata of a file fails the check.
#[derive(Clone, Copy, PartialEq, Eq, Structural, Debug)]
pub enum MetadataError {
    /// The cover image does not exist.
    MissingCoverImage,
    /// The language is neither `zh-Hant` nor `zh-Hans`.
    UnknownLang,
}

/// The language of a file whose metadata passes the check: the cover image
/// must exist (`cover_image_is_file`) and the language must be known.
pub fn check_metadata(metadata: &Metadata, cover_image_is_file: bool) -> (r: Result<
    Lang,
    MetadataError,
>)
    ensures
        !metadata.cover_image_is_ok_spec(cover_image_is_file) ==> r == Err::<Lang, MetadataError>(
            MetadataError::MissingCoverImage,
        ),
        metadata.cover_image_is_ok_spec(cover_image_is_file) ==> r == match spec_parse_lang(
            metadata.lang@,
        ) {
            Some(lang) => Ok(lang),
            None => Err(MetadataError::UnknownLang),
        },
{
    if !metadata.cover_image_is_ok(cover_image_is_file) {
        return Err(MetadataError::MissingCoverImage);
    }
    match parse_lang(metadata.lang.as_str()) {
        Some(lang) => Ok(lang),
        None => Err(MetadataError::UnknownLang),
    }
}

} // verus!
