use vstd::prelude::*;

use crate::convert::{
    convert_str, lang, opencc_callable, opencc_failed, spec_lang, spec_opencc_mode, text_converted, Convert,
    ConvertError, OpenccMode,
};
use crate::markdown::{
    lang_tag, lang_tag_string, metadata_text, spec_metadata_text, HeadEvent, Metadata,
    MetadataBlockError,
};
use crate::names::{num_to_str, padded_decimal};
use crate::search::opt_view;
use crate::text::{is_split, join, join_spec, push_str, split_on, views};

use pulldown_cmark::MetadataBlockKind::YamlStyle;
use pulldown_cmark::{DefaultBrokenLinkCallback, Event, Options, Tag, TagEnd, TextMergeWithOffset};

verus! {

/// `new` holds the lines of `old`, split at line breaks, each converted by
/// `converts` as body text, joined again with line breaks.
pub open spec fn lines_converted<F: Fn(OpenccMode, &String) -> Result<String, ConvertError>>(
    opencc: F,
    converts: Seq<Convert>,
    old: Seq<char>,
    new: Seq<char>,
) -> bool {
    exists|olds: Seq<String>, news: Seq<String>|
        #![trigger is_split(old, '\n', views(olds)), views(news)]
        {
            &&& is_split(old, '\n', views(olds))
            &&& news.len() == olds.len()
            &&& (forall|k: int|
                0 <= k < olds.len() ==> text_converted(
                    opencc,
                    converts,
                    false,
                    #[trigger] olds[k],
                    news[k],
                ))
            &&& new == join_spec(views(news), "\n"@)
        }
}

/// OpenCC failed with `e` on one of the lines of `text`.
pub open spec fn lines_failed<F: Fn(OpenccMode, &String) -> Result<String, ConvertError>>(
    opencc: F,
    converts: Seq<Convert>,
    text: Seq<char>,
    e: ConvertError,
) -> bool {
    exists|lines: Seq<String>, k: int|
        #![trigger is_split(text, '\n', views(lines)), lines[k]]
        is_split(text, '\n', views(lines)) && 0 <= k < lines.len() && opencc_failed(
            opencc,
            converts,
            lines[k],
            e,
        )
}

fn convert_lines<F: Fn(OpenccMode, &String) -> Result<String, ConvertError>>(
    text: &str,
    converts: &[Convert],
    opencc: &F,
) -> (r: Result<String, ConvertError>)
    requires
        opencc_callable(*opencc),
    ensures
        spec_opencc_mode(converts@) is None ==> r is Ok,
        converts@.len() == 0 ==> (r matches Ok(s) && s@ == text@),
        r matches Ok(s) ==> lines_converted(*opencc, converts@, text@, s@),
        r matches Err(e) ==> lines_failed(*opencc, converts@, text@, e),
{
    let lines = split_on(text, '\n');
    let mut converted: Vec<String> = Vec::new();
    let mut k: usize = 0;
    while k < lines.len()
        invariant
            opencc_callable(*opencc),
            is_split(text@, '\n', views(lines@)),
            k <= lines@.len(),
            converted@.len() == k,
            forall|j: int|
                0 <= j < k ==> text_converted(
                    *opencc,
                    converts@,
                    false,
                    #[trigger] lines@[j],
                    converted@[j],
                ),
            converts@.len() == 0 ==> forall|j: int|
                0 <= j < k ==> (#[trigger] converted@[j])@ == lines@[j]@,
        decreases lines@.len() - k,
    {
        let line = match convert_str(&lines[k], converts, false, opencc) {
            Ok(line) => line,
            Err(e) => {
                assert(is_split(text@, '\n', views(lines@)));
                assert(lines@[k as int] == lines@[k as int]);
                return Err(e);
            },
        };
        converted.push(line);
        k += 1;
    }
    let r = join(&converted, "\n");
    proof {
        reveal_strlit("\n");
        assert("\n"@ =~= seq!['\n']);
        if converts@.len() == 0 {
            assert(views(converted@) =~= views(lines@));
        }
        assert(is_split(text@, '\n', views(lines@)));
    }
    Ok(r)
}

/// Converts the metadata of a markdown file by `converts`: its title and
/// author as body text, its language to that of the conversion, and its
/// description line by line. The cover image is left as it is.
pub fn convert_metadata<F: Fn(OpenccMode, &String) -> Result<String, ConvertError>>(
    metadata: &mut Metadata,
    converts: &[Convert],
    opencc: &F,
) -> (r: Result<(), ConvertError>)
    requires
        opencc_callable(*opencc),
    ensures
        spec_opencc_mode(converts@) is None ==> r is Ok,
        r is Ok ==> {
            &&& text_converted(*opencc, converts@, false, old(metadata).title, final(metadata).title)
            &&& text_converted(
                *opencc,
                converts@,
                false,
                old(metadata).author,
                final(metadata).author,
            )
            &&& final(metadata).lang@ == lang_tag(spec_lang(converts@))
            &&& match old(metadata).description {
                None => final(metadata).description is None,
                Some(d) => final(metadata).description matches Some(n) && lines_converted(
                    *opencc,
                    converts@,
                    d@,
                    n@,
                ),
            }
            &&& final(metadata).cover_image == old(metadata).cover_image
        },
        converts@.len() == 0 ==> {
            &&& final(metadata).title == old(metadata).title
            &&& final(metadata).author == old(metadata).author
            &&& opt_view(final(metadata).description) == opt_view(old(metadata).description)
        },
        r matches Err(e) ==> {
            ||| opencc_failed(*opencc, converts@, old(metadata).title, e)
            ||| opencc_failed(*opencc, converts@, old(metadata).author, e)
            ||| (old(metadata).description matches Some(d) && lines_failed(
                *opencc,
                converts@,
                d@,
                e,
            ))
        },
{
    let title = convert_str(&metadata.title, converts, false, opencc)?;
    let author = convert_str(&metadata.author, converts, false, opencc)?;
    let description = match &metadata.description {
        None => None,
        Some(d) => Some(convert_lines(d.as_str(), converts, opencc)?),
    };
    metadata.title = title;
    metadata.author = author;
    metadata.lang = lang_tag_string(lang(converts));
    metadata.description = description;
    Ok(())
}

/// The events of a markdown file, as far as its metadata block, the
/// conversion of its text and its images tell them apart.
#[derive(Debug)]
pub enum MdEvent {
    /// The start of a YAML-style metadata block.
    MetadataStart,
    /// The end of a YAML-style metadata block.
    MetadataEnd,
    /// The start of a heading.
    HeadingStart,
    /// The end of a heading.
    HeadingEnd,
    /// Text.
    Text(String),
    /// The start of an image, with the address it links.
    Image(String),
    /// Any other event.
    Other,
}

/// The events that `pulldown_cmark` reads in `markdown`, as `md_events_of`
/// tells them apart.
pub uninterp spec fn markdown_md_events(markdown: Seq<char>) -> Seq<MdEvent>;

/// Runs the parser of `pulldown_cmark` (`TextMergeWithOffset::new_ext`, which
/// merges consecutive texts, with YAML-style metadata blocks on) over
/// `markdown`, and tells its events apart as `MdEvent` does, one for one. The
/// events are a function of the text alone, and are named.
#[verifier::external_body]
fn md_events_of(markdown: &str) -> (r: Vec<MdEvent>)
    ensures
        r@ == markdown_md_events(markdown@),
{
    let options = Options::ENABLE_YAML_STYLE_METADATA_BLOCKS;
    let parser = TextMergeWithOffset::<DefaultBrokenLinkCallback>::new_ext(markdown, options);
    parser.map(|(event, _)| match event {
        Event::Start(Tag::MetadataBlock(YamlStyle)) => MdEvent::MetadataStart,
        Event::End(TagEnd::MetadataBlock(YamlStyle)) => MdEvent::MetadataEnd,
        Event::Start(Tag::Heading { .. }) => MdEvent::HeadingStart,
        Event::End(TagEnd::Heading(_)) => MdEvent::HeadingEnd,
        Event::Text(text) => MdEvent::Text(text.into_string()),
        Event::Start(Tag::Image { dest_url, .. }) => MdEvent::Image(dest_url.into_string()),
        _ => MdEvent::Other,
    }).collect()
}

/// Where the conversion of a markdown file is: inside a heading or not, and
/// the number of the next image.
pub struct TransformState {
    pub in_heading: bool,
    pub image_index: u16,
}

/// What becomes of an event.
#[derive(Debug)]
pub enum TransformOutput {
    /// The event is kept as it is.
    Keep,
    /// The text is replaced by this one.
    Text(String),
    /// The image is copied to a file with this stem, and linked there.
    Image { stem: String },
}

impl TransformState {
    /// The state at the head of a file: outside headings, with the first
    /// image numbered 1.
    pub fn new() -> (r: TransformState)
        ensures
            !r.in_heading,
            r.image_index == 1,
    {
        TransformState { in_heading: false, image_index: 1 }
    }
}

/// What the conversion by `converts` does with `event`: headings are tracked,
/// text is converted (as a heading inside one), and images are numbered in
/// order, the number padded to three digits being the stem of the new file.
pub fn transform_event<F: Fn(OpenccMode, &String) -> Result<String, ConvertError>>(
    state: &mut TransformState,
    event: &MdEvent,
    converts: &[Convert],
    opencc: &F,
) -> (r: Result<TransformOutput, ConvertError>)
    requires
        opencc_callable(*opencc),
        *event matches MdEvent::Image(_) ==> old(state).image_index < u16::MAX,
    ensures
        match *event {
            MdEvent::HeadingStart => r matches Ok(TransformOutput::Keep) && final(state).in_heading
                && final(state).image_index == old(state).image_index,
            MdEvent::HeadingEnd => r matches Ok(TransformOutput::Keep) && !final(state).in_heading
                && final(state).image_index == old(state).image_index,
            MdEvent::Text(t) => *final(state) == *old(state) && (spec_opencc_mode(converts@) is None
                ==> r is Ok) && (r matches Ok(out) ==> out matches TransformOutput::Text(n)
                && text_converted(*opencc, converts@, old(state).in_heading, t, n)) && (
            r matches Err(e) ==> opencc_failed(*opencc, converts@, t, e)),
            MdEvent::Image(_) => r matches Ok(TransformOutput::Image { stem }) && stem@
                == padded_decimal(old(state).image_index as nat) && final(state).in_heading
                == old(state).in_heading && final(state).image_index == old(state).image_index + 1,
            _ => r matches Ok(TransformOutput::Keep) && *final(state) == *old(state),
        },
{
    match event {
        MdEvent::HeadingStart => {
            state.in_heading = true;
            Ok(TransformOutput::Keep)
        },
        MdEvent::HeadingEnd => {
            state.in_heading = false;
            Ok(TransformOutput::Keep)
        },
        MdEvent::Text(t) => {
            let n = convert_str(t, converts, state.in_heading, opencc)?;
            Ok(TransformOutput::Text(n))
        },
        MdEvent::Image(_) => {
            let stem = num_to_str(state.image_index);
            state.image_index = state.image_index + 1;
            Ok(TransformOutput::Image { stem })
        },
        _ => Ok(TransformOutput::Keep),
    }
}

/// An event as the metadata block reads it.
pub open spec fn spec_head_event(event: MdEvent) -> HeadEvent {
    match event {
        MdEvent::MetadataStart => HeadEvent::MetadataStart,
        MdEvent::MetadataEnd => HeadEvent::MetadataEnd,
        MdEvent::Text(t) => HeadEvent::Text(t),
        _ => HeadEvent::Other,
    }
}

/// The first three events (or all, where there are fewer), as the metadata
/// block reads them.
pub open spec fn head_events(events: Seq<MdEvent>) -> Seq<HeadEvent> {
    let n = if events.len() < 3 {
        events.len() as int
    } else {
        3
    };
    events.take(n).map_values(|e: MdEvent| spec_head_event(e))
}

/// The events after the metadata block.
pub open spec fn body_events(events: Seq<MdEvent>) -> Seq<MdEvent> {
    if events.len() < 3 {
        Seq::empty()
    } else {
        events.skip(3)
    }
}

/// The addresses of the images among the first `n` of `events`, in order.
pub open spec fn image_urls(events: Seq<MdEvent>, n: int) -> Seq<Seq<char>>
    decreases n,
{
    if n <= 0 {
        Seq::empty()
    } else {
        match events[n - 1] {
            MdEvent::Image(url) => image_urls(events, n - 1).push(url@),
            _ => image_urls(events, n - 1),
        }
    }
}

/// The addresses of all the images of `events`, in order.
pub open spec fn all_image_urls(events: Seq<MdEvent>) -> Seq<Seq<char>> {
    image_urls(events, events.len() as int)
}

proof fn image_urls_grow(events: Seq<MdEvent>, a: int, b: int)
    requires
        0 <= a <= b,
    ensures
        image_urls(events, a).len() <= image_urls(events, b).len(),
    decreases b,
{
    if a < b {
        image_urls_grow(events, a, b - 1);
    }
}

fn head_event(event: &MdEvent) -> (r: HeadEvent)
    ensures
        r == spec_head_event(*event),
{
    match event {
        MdEvent::MetadataStart => HeadEvent::MetadataStart,
        MdEvent::MetadataEnd => HeadEvent::MetadataEnd,
        MdEvent::Text(t) => HeadEvent::Text(t.clone()),
        _ => HeadEvent::Other,
    }
}

fn head_of(events: &Vec<MdEvent>) -> (r: Vec<HeadEvent>)
    ensures
        r@ == head_events(events@),
{
    let n: usize = if events.len() < 3 {
        events.len()
    } else {
        3
    };
    let mut r: Vec<HeadEvent> = Vec::new();
    let mut k: usize = 0;
    while k < n
        invariant
            n <= events@.len(),
            n == (if events@.len() < 3 {
                events@.len() as int
            } else {
                3
            }),
            k <= n,
            r@ == events@.take(k as int).map_values(|e: MdEvent| spec_head_event(e)),
        decreases n - k,
    {
        r.push(head_event(&events[k]));
        proof {
            assert(events@.take(k + 1).map_values(|e: MdEvent| spec_head_event(e))
                =~= events@.take(k as int).map_values(|e: MdEvent| spec_head_event(e)).push(
                spec_head_event(events@[k as int]),
            ));
        }
        k += 1;
    }
    r
}

fn images_of(events: &Vec<MdEvent>) -> (r: Vec<String>)
    ensures
        views(r@) == all_image_urls(events@),
{
    let mut r: Vec<String> = Vec::new();
    let mut k: usize = 0;
    while k < events.len()
        invariant
            k <= events@.len(),
            views(r@) == image_urls(events@, k as int),
        decreases events@.len() - k,
    {
        if let MdEvent::Image(url) = &events[k] {
            let ghost before = r@;
            r.push(url.clone());
            assert(views(r@) =~= views(before).push(url@));
        }
        k += 1;
    }
    r
}

/// The metadata block of a markdown file whose metadata is readable: its
/// first three events are the start of the block, its text, and its end.
proof fn readable_head_has_three(events: Seq<MdEvent>)
    requires
        spec_metadata_text(head_events(events)) is Ok,
    ensures
        events.len() >= 3,
{
}

/// The YAML text of the metadata block at the head of `markdown`, and the
/// addresses of the images that the rest of the file links, in order; or the
/// error that `metadata_text` gives for its first events.
pub fn metadata_and_images(markdown: &str) -> (r: Result<(String, Vec<String>), MetadataBlockError>)
    ensures
        ({
            let events = markdown_md_events(markdown@);
            match spec_metadata_text(head_events(events)) {
                Err(e) => r == Err::<(String, Vec<String>), MetadataBlockError>(e),
                Ok(text) => r matches Ok((t, images)) && t == text && views(images@)
                    == all_image_urls(body_events(events)),
            }
        }),
{
    let mut events = md_events_of(markdown);
    let head = head_of(&events);
    let text = match metadata_text(&head) {
        Ok(text) => text,
        Err(e) => return Err(e),
    };
    proof {
        readable_head_has_three(events@);
    }
    let body = events.split_off(3);
    assert(body@ =~= body_events(markdown_md_events(markdown@)));
    Ok((text, images_of(&body)))
}

/// The cover image of `metadata`, as a list of at most one address.
pub open spec fn cover_list(metadata: Metadata) -> Seq<Seq<char>> {
    match metadata.cover_image {
        Some(c) => seq![c@],
        None => Seq::empty(),
    }
}

/// The images that the markdown file `markdown` uses: the addresses that the
/// events after its metadata block link, in order, then the cover image of
/// `metadata` (the metadata read from that block) where it has one; or the
/// error that `metadata_text` gives for its first events.
pub fn markdown_images(markdown: &str, metadata: &Metadata) -> (r: Result<Vec<String>, MetadataBlockError>)
    ensures
        ({
            let events = markdown_md_events(markdown@);
            match spec_metadata_text(head_events(events)) {
                Err(e) => r == Err::<Vec<String>, MetadataBlockError>(e),
                Ok(_) => r matches Ok(images) && views(images@) == all_image_urls(
                    body_events(events),
                ) + cover_list(*metadata),
            }
        }),
{
    let (_, mut images) = match metadata_and_images(markdown) {
        Ok(found) => found,
        Err(e) => return Err(e),
    };
    let ghost links = views(images@);
    if let Some(cover) = &metadata.cover_image {
        images.push(cover.clone());
        assert(views(images@) =~= links + cover_list(*metadata));
    } else {
        assert(views(images@) =~= links + cover_list(*metadata));
    }
    Ok(images)
}

/// Whether the heading events among the first `n` of `events` leave the
/// reader inside a heading.
pub open spec fn heading_before(events: Seq<MdEvent>, n: int) -> bool
    decreases n,
{
    if n <= 0 {
        false
    } else {
        match events[n - 1] {
            MdEvent::HeadingStart => true,
            MdEvent::HeadingEnd => false,
            _ => heading_before(events, n - 1),
        }
    }
}

/// `out` is what becomes of the event at `k` of `events` in the conversion by
/// `converts`: a text is converted (as a heading inside one), the images are
/// numbered from 1 in order, the number padded to three digits being the
/// stem of the new file, and any other event is kept.
pub open spec fn output_shows<F: Fn(OpenccMode, &String) -> Result<String, ConvertError>>(
    opencc: F,
    converts: Seq<Convert>,
    events: Seq<MdEvent>,
    k: int,
    out: TransformOutput,
) -> bool {
    match events[k] {
        MdEvent::Text(t) => out matches TransformOutput::Text(n) && text_converted(
            opencc,
            converts,
            heading_before(events, k),
            t,
            n,
        ),
        MdEvent::Image(_) => out matches TransformOutput::Image { stem } && stem@ == padded_decimal(
            image_urls(events, k).len() + 1,
        ),
        _ => out is Keep,
    }
}

/// What the conversion by `converts` makes of each of `events`, which hold
/// fewer than 65535 images (the numbers are `u16`s).
pub fn transform_events<F: Fn(OpenccMode, &String) -> Result<String, ConvertError>>(
    events: &Vec<MdEvent>,
    converts: &[Convert],
    opencc: &F,
) -> (r: Result<Vec<TransformOutput>, ConvertError>)
    requires
        opencc_callable(*opencc),
        all_image_urls(events@).len() < 65535,
    ensures
        spec_opencc_mode(converts@) is None ==> r is Ok,
        r matches Ok(outs) ==> outs@.len() == events@.len() && forall|k: int|
            0 <= k < events@.len() ==> output_shows(*opencc, converts@, events@, k, #[trigger] outs@[k]),
        r matches Err(e) ==> exists|k: int|
            0 <= k < events@.len() && (#[trigger] events@[k] matches MdEvent::Text(t)
                && opencc_failed(*opencc, converts@, t, e)),
{
    let mut state = TransformState::new();
    let mut outs: Vec<TransformOutput> = Vec::new();
    let mut k: usize = 0;
    while k < events.len()
        invariant
            opencc_callable(*opencc),
            k <= events@.len(),
            all_image_urls(events@).len() < 65535,
            state.in_heading == heading_before(events@, k as int),
            state.image_index == image_urls(events@, k as int).len() + 1,
            outs@.len() == k,
            forall|j: int| 0 <= j < k ==> output_shows(*opencc, converts@, events@, j, #[trigger] outs@[j]),
        decreases events@.len() - k,
    {
        proof {
            image_urls_grow(events@, k + 1, events@.len() as int);
        }
        match transform_event(&mut state, &events[k], converts, opencc) {
            Ok(out) => outs.push(out),
            Err(e) => {
                assert(events@[k as int] matches MdEvent::Text(t) && opencc_failed(
                    *opencc,
                    converts@,
                    t,
                    e,
                ));
                return Err(e);
            },
        }
        k += 1;
    }
    Ok(outs)
}

/// Why a markdown file could not be converted.
#[derive(Debug)]
pub enum TransformError {
    /// Its metadata block could not be read.
    Metadata(MetadataBlockError),
    /// It links 65535 images or more, more than can be numbered.
    TooManyImages,
    /// OpenCC failed.
    Convert(ConvertError),
}

/// The conversion of the markdown file `markdown` by `converts`: the YAML
/// text of its metadata block, and what becomes of each event after it (see
/// `output_shows`).
pub fn transform_markdown<F: Fn(OpenccMode, &String) -> Result<String, ConvertError>>(
    markdown: &str,
    converts: &[Convert],
    opencc: &F,
) -> (r: Result<(String, Vec<TransformOutput>), TransformError>)
    requires
        opencc_callable(*opencc),
    ensures
        ({
            let events = markdown_md_events(markdown@);
            let body = body_events(events);
            match spec_metadata_text(head_events(events)) {
                Err(e) => r == Err::<(String, Vec<TransformOutput>), TransformError>(
                    TransformError::Metadata(e),
                ),
                Ok(text) => if all_image_urls(body).len() >= 65535 {
                    r == Err::<(String, Vec<TransformOutput>), TransformError>(
                        TransformError::TooManyImages,
                    )
                } else {
                    &&& spec_opencc_mode(converts@) is None ==> r is Ok
                    &&& r matches Ok((t, outs)) ==> t == text && outs@.len() == body.len()
                        && forall|k: int|
                        0 <= k < body.len() ==> output_shows(
                            *opencc,
                            converts@,
                            body,
                            k,
                            #[trigger] outs@[k],
                        )
                    &&& r matches Err(err) ==> err matches TransformError::Convert(e) && exists|
                        k: int,
                    |
                        0 <= k < body.len() && (#[trigger] body[k] matches MdEvent::Text(t)
                            && opencc_failed(*opencc, converts@, t, e))
                },
            }
        }),
{
    let mut events = md_events_of(markdown);
    let head = head_of(&events);
    let text = match metadata_text(&head) {
        Ok(text) => text,
        Err(e) => return Err(TransformError::Metadata(e)),
    };
    proof {
        readable_head_has_three(events@);
    }
    let body = events.split_off(3);
    assert(body@ =~= body_events(markdown_md_events(markdown@)));
    let images = images_of(&body);
    if images.len() >= 65535 {
        return Err(TransformError::TooManyImages);
    }
    match transform_events(&body, converts, opencc) {
        Ok(outs) => Ok((text, outs)),
        Err(e) => Err(TransformError::Convert(e)),
    }
}

/// What stands for an event after the metadata block when a converted
/// markdown file is written out.
#[derive(Debug)]
pub enum OutputEvent {
    /// The event as it was read.
    Keep,
    /// A text event with this text.
    Text(String),
    /// The image event, linking this address.
    ImageLink(String),
}

/// The number of image outputs among the first `n` of `outputs`.
pub open spec fn image_outputs(outputs: Seq<TransformOutput>, n: int) -> nat
    decreases n,
{
    if n <= 0 {
        0
    } else {
        image_outputs(outputs, n - 1) + if outputs[n - 1] is Image {
            1nat
        } else {
            0nat
        }
    }
}

/// `event` stands for the output at `k` of `outputs`, where the images are
/// linked at `files` in order.
pub open spec fn output_event_shows(
    outputs: Seq<TransformOutput>,
    files: Seq<Seq<char>>,
    k: int,
    event: OutputEvent,
) -> bool {
    match outputs[k] {
        TransformOutput::Keep => event is Keep,
        TransformOutput::Text(t) => event matches OutputEvent::Text(u) && u@ == t@,
        TransformOutput::Image { .. } => event matches OutputEvent::ImageLink(f) && f@
            == files[image_outputs(outputs, k) as int],
    }
}

/// The events that stand for `outputs` when the file is written out, the
/// images of the file linking `files` in order (one for each image output).
pub fn output_events(outputs: &Vec<TransformOutput>, files: &Vec<String>) -> (r: Vec<OutputEvent>)
    requires
        files@.len() == image_outputs(outputs@, outputs@.len() as int),
    ensures
        r@.len() == outputs@.len(),
        forall|k: int|
            0 <= k < outputs@.len() ==> output_event_shows(
                outputs@,
                views(files@),
                k,
                #[trigger] r@[k],
            ),
{
    let file_count: usize = files.len();
    let mut r: Vec<OutputEvent> = Vec::new();
    let mut image: usize = 0;
    let mut k: usize = 0;
    while k < outputs.len()
        invariant
            k <= outputs@.len(),
            files@.len() == image_outputs(outputs@, outputs@.len() as int),
            file_count == files@.len(),
            image == image_outputs(outputs@, k as int),
            r@.len() == k,
            forall|j: int|
                0 <= j < k ==> output_event_shows(outputs@, views(files@), j, #[trigger] r@[j]),
        decreases outputs@.len() - k,
    {
        proof {
            image_outputs_grow(outputs@, k + 1, outputs@.len() as int);
        }
        let event = match &outputs[k] {
            TransformOutput::Keep => OutputEvent::Keep,
            TransformOutput::Text(t) => OutputEvent::Text(t.clone()),
            TransformOutput::Image { .. } => {
                assert(image_outputs(outputs@, k as int + 1) == image + 1);
                let f = files[image].clone();
                image += 1;
                OutputEvent::ImageLink(f)
            },
        };
        r.push(event);
        k += 1;
    }
    r
}

proof fn image_outputs_grow(outputs: Seq<TransformOutput>, a: int, b: int)
    requires
        0 <= a <= b,
    ensures
        image_outputs(outputs, a) <= image_outputs(outputs, b),
    decreases b,
{
    if a < b {
        image_outputs_grow(outputs, a, b - 1);
    }
}

/// The markdown that `pulldown_cmark_to_cmark::cmark` writes for the events of
/// `markdown` from the one at `start` on, each replaced as `events` says, or
/// `None` where it reports an error.
pub uninterp spec fn cmark_events(markdown: Seq<char>, start: nat, events: Seq<OutputEvent>) -> Option<
    Seq<char>,
>;

/// `event` may stand for `read` when the file is written out: a new text only
/// for a text, a new address only for an image.
pub open spec fn event_fits(event: OutputEvent, read: MdEvent) -> bool {
    match event {
        OutputEvent::Keep => true,
        OutputEvent::Text(_) => read is Text,
        OutputEvent::ImageLink(_) => read matches MdEvent::Image(_),
    }
}

/// `events` stand, one for one, for the events after a readable metadata
/// block at the head of `markdown`, each fitting the event it stands for.
pub open spec fn events_fit(markdown: Seq<char>, events: Seq<OutputEvent>) -> bool {
    let read = markdown_md_events(markdown);
    let body = body_events(read);
    &&& spec_metadata_text(head_events(read)) is Ok
    &&& events.len() == body.len()
    &&& forall|k: int| 0 <= k < events.len() ==> event_fits(#[trigger] events[k], body[k])
}

/// The events that `output_events` makes of the outputs of `transform_markdown`
/// fit the file they were read from, whatever files the images are linked at.
pub proof fn transformed_events_fit<F: Fn(OpenccMode, &String) -> Result<String, ConvertError>>(
    opencc: F,
    converts: Seq<Convert>,
    markdown: Seq<char>,
    outputs: Seq<TransformOutput>,
    files: Seq<Seq<char>>,
    events: Seq<OutputEvent>,
)
    requires
        spec_metadata_text(head_events(markdown_md_events(markdown))) is Ok,
        outputs.len() == body_events(markdown_md_events(markdown)).len(),
        forall|k: int|
            0 <= k < outputs.len() ==> output_shows(
                opencc,
                converts,
                body_events(markdown_md_events(markdown)),
                k,
                #[trigger] outputs[k],
            ),
        events.len() == outputs.len(),
        forall|k: int| 0 <= k < events.len() ==> output_event_shows(outputs, files, k, #[trigger] events[k]),
    ensures
        events_fit(markdown, events),
{
    let body = body_events(markdown_md_events(markdown));
    assert forall|k: int| 0 <= k < events.len() implies event_fits(#[trigger] events[k], body[k]) by {
        assert(output_shows(opencc, converts, body, k, outputs[k]));
        assert(output_event_shows(outputs, files, k, events[k]));
    }
}

fn event_fits_exec(event: &OutputEvent, read: &MdEvent) -> (r: bool)
    ensures
        r == event_fits(*event, *read),
{
    match event {
        OutputEvent::Keep => true,
        OutputEvent::Text(_) => matches!(read, MdEvent::Text(_)),
        OutputEvent::ImageLink(_) => matches!(read, MdEvent::Image(_)),
    }
}

/// Parses `markdown` as `md_events_of` does, skips its first `start` events,
/// puts each of `events` in place of the one it stands for (a text event
/// with the new text; the image event with the new address and its other
/// fields moved over; the event itself), and writes them with
/// `pulldown_cmark_to_cmark::cmark` into an empty `String`. The result depends
/// on the arguments alone, and is named. The writer panics on an end event
/// whose start it has not seen, so the events must stand one for one for
/// those after a whole metadata block, each fitting the event it replaces:
/// then the writer gets the parser's own balanced events.
#[verifier::external_body]
fn cmark_with(markdown: &str, start: usize, events: &Vec<OutputEvent>) -> (r: Option<String>)
    requires
        start == 3,
        events_fit(markdown@, events@),
    ensures
        match r {
            Some(s) => cmark_events(markdown@, start as nat, events@) == Some(s@),
            None => cmark_events(markdown@, start as nat, events@) is None,
        },
{
    let options = Options::ENABLE_YAML_STYLE_METADATA_BLOCKS;
    let parser = TextMergeWithOffset::<DefaultBrokenLinkCallback>::new_ext(markdown, options);
    let out = parser.skip(start).zip(events).map(|((event, _), new)| match (new, event) {
        (OutputEvent::Text(text), _) => Event::Text(text.clone().into()),
        (OutputEvent::ImageLink(url), Event::Start(Tag::Image { link_type, title, id, .. })) => {
            Event::Start(Tag::Image { link_type, dest_url: url.clone().into(), title, id })
        },
        (_, event) => event,
    });
    let mut buf = String::new();
    pulldown_cmark_to_cmark::cmark(out, &mut buf).ok().map(|_| buf)
}

/// Whether `events` fit the file `markdown` (see `events_fit`).
fn fits_file(markdown: &str, events: &Vec<OutputEvent>) -> (r: bool)
    ensures
        r == events_fit(markdown@, events@),
{
    let read = md_events_of(markdown);
    let head = head_of(&read);
    if metadata_text(&head).is_err() {
        return false;
    }
    proof {
        readable_head_has_three(read@);
    }
    let read_len: usize = read.len();
    let body_len: usize = read_len - 3;
    let ghost body = body_events(read@);
    if events.len() != body_len {
        return false;
    }
    let mut k: usize = 0;
    while k < events.len()
        invariant
            read@ == markdown_md_events(markdown@),
            read@.len() >= 3,
            read_len == read@.len(),
            body_len + 3 == read_len,
            events@.len() == body_len,
            body == read@.skip(3),
            events@.len() == body.len(),
            k <= events@.len(),
            forall|j: int| 0 <= j < k ==> event_fits(#[trigger] events@[j], body[j]),
        decreases events@.len() - k,
    {
        if !event_fits_exec(&events[k], &read[k + 3]) {
            return false;
        }
        k += 1;
    }
    true
}

/// The converted markdown file: the markdown of its new metadata block, a
/// line break, the events after the old block written with `events` in their
/// place, and a line break. `None` where `events` do not fit the file (see
/// `events_fit`), or where the writer reports an error.
pub fn transformed_markdown(markdown: &str, metadata_block: &str, events: &Vec<OutputEvent>) -> (r:
    Option<String>)
    ensures
        !events_fit(markdown@, events@) ==> r is None,
        events_fit(markdown@, events@) ==> match cmark_events(markdown@, 3, events@) {
            None => r is None,
            Some(body) => r matches Some(s) && s@ == metadata_block@ + seq!['\n'] + body + seq![
                '\n',
            ],
        },
{
    if !fits_file(markdown, events) {
        return None;
    }
    let body = match cmark_with(markdown, 3, events) {
        Some(body) => body,
        None => return None,
    };
    let mut s = String::new();
    push_str(&mut s, metadata_block);
    s.push('\n');
    push_str(&mut s, body.as_str());
    s.push('\n');
    assert(s@ =~= metadata_block@ + seq!['\n'] + body@ + seq!['\n']);
    Some(s)
}

} // verus!
