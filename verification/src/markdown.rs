use vstd::prelude::*;

use crate::convert::Lang;
use crate::text::same_text;

verus! {

/// The metadata block at the head of a pandoc-style markdown file.
pub struct Metadata {
    pub title: String,
    pub author: String,
    pub lang: String,
    pub description: Option<String>,
    pub cover_image: Option<String>,
}

/// The language tag written for a language.
pub open spec fn lang_tag(lang: Lang) -> Seq<char> {
    match lang {
        Lang::ZhHant => seq!['z', 'h', '-', 'H', 'a', 'n', 't'],
        Lang::ZhHans => seq!['z', 'h', '-', 'H', 'a', 'n', 's'],
    }
}

/// The language tag of `lang`: `zh-Hant` or `zh-Hans`.
pub fn lang_tag_string(lang: Lang) -> (r: String)
    ensures
        r@ == lang_tag(lang),
{
    let mut r = String::new();
    r.push('z');
    r.push('h');
    r.push('-');
    r.push('H');
    r.push('a');
    r.push('n');
    match lang {
        Lang::ZhHant => r.push('t'),
        Lang::ZhHans => r.push('s'),
    }
    assert(r@ =~= lang_tag(lang));
    r
}

pub open spec fn spec_parse_lang(tag: Seq<char>) -> Option<Lang> {
    if tag == lang_tag(Lang::ZhHant) {
        Some(Lang::ZhHant)
    } else if tag == lang_tag(Lang::ZhHans) {
        Some(Lang::ZhHans)
    } else {
        None
    }
}

/// The language whose tag is `tag`.
pub fn parse_lang(tag: &str) -> (r: Option<Lang>)
    ensures
        r == spec_parse_lang(tag@),
{
    if same_text(tag, lang_tag_string(Lang::ZhHant).as_str()) {
        Some(Lang::ZhHant)
    } else if same_text(tag, lang_tag_string(Lang::ZhHans).as_str()) {
        Some(Lang::ZhHans)
    } else {
        None
    }
}

impl Metadata {
    /// The language is `zh-Hant` or `zh-Hans`.
    pub fn lang_is_ok(&self) -> (r: bool)
        ensures
            r == (self.lang@ == lang_tag(Lang::ZhHant) || self.lang@ == lang_tag(Lang::ZhHans)),
    {
        parse_lang(self.lang.as_str()).is_some()
    }

    pub open spec fn cover_image_is_ok_spec(&self, cover_image_is_file: bool) -> bool {
        self.cover_image is None || cover_image_is_file
    }

    /// There is no cover image, or it is a file; `cover_image_is_file` tells
    /// whether the cover image path names a file.
    pub fn cover_image_is_ok(&self, cover_image_is_file: bool) -> (r: bool)
        ensures
            r == self.cover_image_is_ok_spec(cover_image_is_file),
    {
        !(self.cover_image.is_some() && !cover_image_is_file)
    }
}

/// The markdown that `pulldown_cmark_to_cmark::cmark` writes for a YAML-style
/// metadata block holding `yaml`, or `None` where it reports an error.
pub uninterp spec fn cmark_metadata_block(yaml: Seq<char>) -> Option<Seq<char>>;

/// Calls `pulldown_cmark_to_cmark::cmark` on the three events of a YAML-style
/// metadata block (its start, the text `yaml`, its end), writing into an empty
/// `String`. The result is named: it depends on `yaml` alone, and the crate
/// escapes a leading special character of the text and frames it with `---`
/// lines, which is left unsaid here.
#[verifier::external_body]
fn cmark_metadata(yaml: &str) -> (r: Option<String>)
    ensures
        match r {
            Some(s) => cmark_metadata_block(yaml@) == Some(s@),
            None => cmark_metadata_block(yaml@) is None,
        },
{
    let events = [
        pulldown_cmark::Event::Start(
            pulldown_cmark::Tag::MetadataBlock(pulldown_cmark::MetadataBlockKind::YamlStyle),
        ),
        pulldown_cmark::Event::Text(yaml.to_string().into()),
        pulldown_cmark::Event::End(
            pulldown_cmark::TagEnd::MetadataBlock(pulldown_cmark::MetadataBlockKind::YamlStyle),
        ),
    ];
    let mut buf = String::new();
    pulldown_cmark_to_cmark::cmark(events.iter(), &mut buf).ok().map(|_| buf)
}

/// The markdown of a metadata block holding the YAML text `yaml`.
pub fn metadata_block(yaml: &str) -> (r: Option<String>)
    ensures
        match r {
            Some(s) => cmark_metadata_block(yaml@) == Some(s@),
            None => cmark_metadata_block(yaml@) is None,
        },
{
    cmark_metadata(yaml)
}

/// The first events of a markdown file, as far as its metadata block goes.
#[derive(Clone, PartialEq, Eq, Debug)]
pub enum HeadEvent {
    /// The start of a YAML-style metadata block.
    MetadataStart,
    /// Text.
    Text(String),
    /// The end of a YAML-style metadata block.
    MetadataEnd,
    /// Any other event.
    Other,
}

/// Why a markdown file has no metadata block at its head.
#[derive(Clone, Copy, PartialEq, Eq, Structural, Debug)]
pub enum MetadataBlockError {
    /// The file does not start with a YAML-style metadata block.
    NoStart,
    /// The block holds no text.
    NoText,
    /// The block is not closed right after its text.
    NoEnd,
}

/// The text of the metadata block at the head of a markdown file whose first
/// events are `events`: the file must start with the block, its text must
/// come next, and the block must end right after it.
pub open spec fn spec_metadata_text(events: Seq<HeadEvent>) -> Result<String, MetadataBlockError> {
    if events.len() < 1 || events[0] != HeadEvent::MetadataStart {
        Err(MetadataBlockError::NoStart)
    } else if events.len() < 2 || !(events[1] is Text) {
        Err(MetadataBlockError::NoText)
    } else if events.len() < 3 || events[2] != HeadEvent::MetadataEnd {
        Err(MetadataBlockError::NoEnd)
    } else {
        Ok(events[1]->Text_0)
    }
}

/// The text of the metadata block at the head of a markdown file, from its
/// first three events (fewer where the file has fewer).
pub fn metadata_text(events: &Vec<HeadEvent>) -> (r: Result<String, MetadataBlockError>)
    ensures
        r == spec_metadata_text(events@),
{
    if events.len() < 1 || !matches!(events[0], HeadEvent::MetadataStart) {
        return Err(MetadataBlockError::NoStart);
    }
    let text = if events.len() >= 2 {
        match &events[1] {
            HeadEvent::Text(t) => t.clone(),
            _ => return Err(MetadataBlockError::NoText),
        }
    } else {
        return Err(MetadataBlockError::NoText);
    };
    if events.len() < 3 || !matches!(events[2], HeadEvent::MetadataEnd) {
        return Err(MetadataBlockError::NoEnd);
    }
    Ok(text)
}

} // verus!
