use vstd::prelude::*;

use crate::images::{
    image_name, new_image_name, nth_image_name, spec_image_ext, supported_count, ImageColor,
    ImageExt,
};
use crate::convert::{
    convert_text_of, lang, opencc_callable, opencc_failed_on, seq_converted, spec_lang, spec_opencc_mode, Convert,
    ConvertError, Lang, OpenccMode,
};
use crate::markdown::{lang_tag, lang_tag_string, Metadata};
use crate::names::{num_to_str, padded_decimal};
use crate::novel::{Chapter, Content, Novel, Volume};
use crate::text::{join, join_spec, push_str, views};

verus! {

/// The directory of the volume numbered `v` in an mdBook.
pub open spec fn volume_dir(v: nat) -> Seq<char> {
    "volume"@ + padded_decimal(v)
}

/// The page of the chapter numbered `c` in an mdBook.
pub open spec fn chapter_file(c: nat) -> Seq<char> {
    "chapter"@ + padded_decimal(c) + ".md"@
}

/// The name of the directory of the volume numbered `index`.
pub fn volume_dir_name(index: u16) -> (r: String)
    ensures
        r@ == volume_dir(index as nat),
{
    let mut r = String::new();
    push_str(&mut r, "volume");
    let digits = num_to_str(index);
    push_str(&mut r, digits.as_str());
    r
}

/// The file name of the page of the chapter numbered `index`.
pub fn chapter_file_name(index: u16) -> (r: String)
    ensures
        r@ == chapter_file(index as nat),
{
    let mut r = String::new();
    push_str(&mut r, "chapter");
    let digits = num_to_str(index);
    push_str(&mut r, digits.as_str());
    push_str(&mut r, ".md");
    r
}

/// The number of chapters in the first `n` volumes.
pub open spec fn chapters_before<I>(volumes: Seq<Volume<I>>, n: int) -> nat
    decreases n,
{
    if n <= 0 {
        0
    } else {
        chapters_before(volumes, n - 1) + volumes[n - 1].chapters@.len()
    }
}

proof fn chapters_before_grows<I>(volumes: Seq<Volume<I>>, a: int, b: int)
    requires
        0 <= a <= b,
    ensures
        chapters_before(volumes, a) <= chapters_before(volumes, b),
    decreases b,
{
    if a < b {
        chapters_before_grows(volumes, a, b - 1);
    }
}

/// Volumes and chapters are numbered from 1 over the whole novel, and each
/// number is written with at least three digits, so a novel can hold at most
/// 65534 of each.
pub open spec fn numbering_fits<I>(novel: Novel<I>) -> bool {
    &&& novel.volumes@.len() < 65535
    &&& chapters_before(novel.volumes@, novel.volumes@.len() as int) < 65535
}

/// The lines of the table of contents for the first `m` of `chapters`, which
/// lie in the directory `dir` and are numbered from `first`.
pub open spec fn summary_chapter_lines<I>(
    chapters: Seq<Chapter<I>>,
    dir: Seq<char>,
    first: nat,
    m: int,
) -> Seq<char>
    decreases m,
{
    if m <= 0 {
        Seq::empty()
    } else {
        summary_chapter_lines(chapters, dir, first, m - 1) + "  - ["@ + chapters[m - 1].title@
            + "]("@ + dir + "/"@ + chapter_file((first + m - 1) as nat) + ")"@ + "\n"@
    }
}

/// The lines of the table of contents for the volume at `v`: none for a
/// volume without chapters.
pub open spec fn summary_volume<I>(volumes: Seq<Volume<I>>, v: int) -> Seq<char> {
    let volume = volumes[v];
    let dir = volume_dir((v + 1) as nat);
    if volume.chapters@.len() == 0 {
        Seq::empty()
    } else {
        "- ["@ + volume.title@ + "]("@ + dir + "/README.md)"@ + "\n"@ + summary_chapter_lines(
            volume.chapters@,
            dir,
            chapters_before(volumes, v) + 1,
            volume.chapters@.len() as int,
        )
    }
}

pub open spec fn summary_volumes<I>(volumes: Seq<Volume<I>>, n: int) -> Seq<char>
    decreases n,
{
    if n <= 0 {
        Seq::empty()
    } else {
        summary_volumes(volumes, n - 1) + summary_volume(volumes, n - 1)
    }
}

/// The head of the table of contents: its title, then the cover and the
/// introduction where the novel has them.
pub open spec fn summary_head<I>(
    novel: Novel<I>,
    toc_title: Seq<char>,
    cover_title: Seq<char>,
    introduction_title: Seq<char>,
) -> Seq<char> {
    "# "@ + toc_title + "\n"@ + "\n"@ + (if novel.cover_image is Some {
        "- ["@ + cover_title + "](cover.md)"@ + "\n"@ + "\n"@
    } else {
        Seq::empty()
    }) + (if novel.introduction is Some {
        "- ["@ + introduction_title + "](introduction.md)"@ + "\n"@ + "\n"@
    } else {
        Seq::empty()
    })
}

/// The `SUMMARY.md` of the mdBook of `novel`.
pub open spec fn summary_spec<I>(
    novel: Novel<I>,
    toc_title: Seq<char>,
    cover_title: Seq<char>,
    introduction_title: Seq<char>,
) -> Seq<char> {
    summary_head(novel, toc_title, cover_title, introduction_title) + summary_volumes(
        novel.volumes@,
        novel.volumes@.len() as int,
    )
}

fn push_summary_head<I>(
    s: &mut String,
    novel: &Novel<I>,
    toc_title: &str,
    cover_title: &str,
    introduction_title: &str,
)
    ensures
        final(s)@ == old(s)@ + summary_head(*novel, toc_title@, cover_title@, introduction_title@),
{
    let ghost start = s@;
    push_str(s, "# ");
    push_str(s, toc_title);
    push_str(s, "\n");
    push_str(s, "\n");
    let ghost first = s@;
    if novel.cover_image.is_some() {
        push_str(s, "- [");
        push_str(s, cover_title);
        push_str(s, "](cover.md)");
        push_str(s, "\n");
        push_str(s, "\n");
    }
    let ghost second = s@;
    if novel.introduction.is_some() {
        push_str(s, "- [");
        push_str(s, introduction_title);
        push_str(s, "](introduction.md)");
        push_str(s, "\n");
        push_str(s, "\n");
    }
    assert(s@ =~= start + summary_head(*novel, toc_title@, cover_title@, introduction_title@));
}

/// Appends the table-of-contents lines of the volume at `v`, whose chapters
/// are numbered from `first`.
fn push_summary_volume<I>(s: &mut String, volumes: &Vec<Volume<I>>, v: usize, first: u16)
    requires
        v < volumes@.len() < 65535,
        first == chapters_before(volumes@, v as int) + 1,
        chapters_before(volumes@, v as int + 1) < 65535,
    ensures
        final(s)@ == old(s)@ + summary_volume(volumes@, v as int),
{
    let volume = &volumes[v];
    let dir = volume_dir_name((v + 1) as u16);
    if volume.chapters.len() == 0 {
        assert(s@ =~= old(s)@ + summary_volume(volumes@, v as int));
        return ;
    }
    push_str(s, "- [");
    push_str(s, volume.title.as_str());
    push_str(s, "](");
    push_str(s, dir.as_str());
    push_str(s, "/README.md)");
    push_str(s, "\n");
    let ghost head = s@;
    let mut chapter_index: u16 = first;
    let mut j: usize = 0;
    while j < volume.chapters.len()
        invariant
            j <= volume.chapters@.len(),
            volume == volumes@[v as int],
            first == chapters_before(volumes@, v as int) + 1,
            chapters_before(volumes@, v as int + 1) < 65535,
            chapter_index == first + j,
            s@ == head + summary_chapter_lines(volume.chapters@, dir@, first as nat, j as int),
        decreases volume.chapters@.len() - j,
    {
        let file = chapter_file_name(chapter_index);
        push_str(s, "  - [");
        push_str(s, volume.chapters[j].title.as_str());
        push_str(s, "](");
        push_str(s, dir.as_str());
        push_str(s, "/");
        push_str(s, file.as_str());
        push_str(s, ")");
        push_str(s, "\n");
        chapter_index += 1;
        j += 1;
        assert(s@ =~= head + summary_chapter_lines(volume.chapters@, dir@, first as nat, j as int));
    }
    assert(s@ =~= old(s)@ + summary_volume(volumes@, v as int));
}

/// The `SUMMARY.md` of the mdBook of `novel`, with the given titles for the
/// table of contents, the cover and the introduction.
pub fn summary_text<I>(
    novel: &Novel<I>,
    toc_title: &str,
    cover_title: &str,
    introduction_title: &str,
) -> (r: String)
    requires
        numbering_fits(*novel),
    ensures
        r@ == summary_spec(*novel, toc_title@, cover_title@, introduction_title@),
{
    let mut s = String::new();
    push_summary_head(&mut s, novel, toc_title, cover_title, introduction_title);
    let ghost head = s@;
    let ghost volumes = novel.volumes@;
    let mut chapter_index: u16 = 1;
    let mut v: usize = 0;
    while v < novel.volumes.len()
        invariant
            v <= volumes.len() < 65535,
            volumes == novel.volumes@,
            chapters_before(volumes, volumes.len() as int) < 65535,
            chapter_index == chapters_before(volumes, v as int) + 1,
            s@ == head + summary_volumes(volumes, v as int),
        decreases volumes.len() - v,
    {
        proof {
            chapters_before_grows(volumes, v + 1, volumes.len() as int);
        }
        push_summary_volume(&mut s, &novel.volumes, v, chapter_index);
        chapter_index = chapter_index + novel.volumes[v].chapters.len() as u16;
        v += 1;
        assert(s@ =~= head + summary_volumes(volumes, v as int));
    }
    assert(s@ =~= summary_spec(*novel, toc_title@, cover_title@, introduction_title@));
    s
}

/// The number of images with a supported color type among the first `n`
/// of `contents`: those are the images that are saved and numbered.
pub open spec fn image_count(contents: Seq<Content<ImageColor>>, n: int) -> nat
    decreases n,
{
    if n <= 0 {
        0
    } else {
        image_count(contents, n - 1) + match contents[n - 1] {
            Content::Image(color) => if spec_image_ext(color) is Some {
                1nat
            } else {
                0nat
            },
            Content::Text(_) => 0nat,
        }
    }
}

/// The markdown of one paragraph or image, where the image, if it is saved,
/// is numbered `image_index` and linked under `image_prefix`. An image that
/// is not saved gives nothing.
pub open spec fn content_markdown(
    content: Content<ImageColor>,
    image_index: nat,
    image_prefix: Seq<char>,
) -> Seq<char> {
    match content {
        Content::Text(line) => line@ + "\n\n"@,
        Content::Image(color) => match spec_image_ext(color) {
            Some(ext) => "![]("@ + image_prefix + image_name(image_index, ext) + ")"@ + "\n\n"@,
            None => Seq::empty(),
        },
    }
}

/// The markdown of the first `n` of `contents`, whose saved images are
/// numbered from `first_image`.
pub open spec fn contents_markdown(
    contents: Seq<Content<ImageColor>>,
    first_image: nat,
    image_prefix: Seq<char>,
    n: int,
) -> Seq<char>
    decreases n,
{
    if n <= 0 {
        Seq::empty()
    } else {
        contents_markdown(contents, first_image, image_prefix, n - 1) + content_markdown(
            contents[n - 1],
            first_image + image_count(contents, n - 1),
            image_prefix,
        )
    }
}

/// Appends the markdown of `contents`, whose saved images are numbered from
/// `first_image`, and gives the number of the next image.
fn push_contents(
    s: &mut String,
    contents: &Vec<Content<ImageColor>>,
    first_image: u16,
    image_prefix: &str,
) -> (next: u16)
    requires
        first_image + image_count(contents@, contents@.len() as int) < 65536,
    ensures
        final(s)@ == old(s)@ + contents_markdown(
            contents@,
            first_image as nat,
            image_prefix@,
            contents@.len() as int,
        ),
        next == first_image + image_count(contents@, contents@.len() as int),
{
    let ghost start = s@;
    let mut image_index = first_image;
    let mut k: usize = 0;
    while k < contents.len()
        invariant
            k <= contents@.len(),
            first_image + image_count(contents@, contents@.len() as int) < 65536,
            image_index == first_image + image_count(contents@, k as int),
            s@ == start + contents_markdown(contents@, first_image as nat, image_prefix@, k as int),
        decreases contents@.len() - k,
    {
        proof {
            image_count_grows(contents@, k + 1, contents@.len() as int);
        }
        match &contents[k] {
            Content::Text(line) => {
                push_str(s, line.as_str());
                push_str(s, "\n\n");
            },
            Content::Image(color) => {
                match new_image_name(*color, image_index) {
                    Ok(name) => {
                        push_str(s, "![](");
                        push_str(s, image_prefix);
                        push_str(s, name.as_str());
                        push_str(s, ")");
                        push_str(s, "\n\n");
                        image_index += 1;
                    },
                    Err(_) => {},
                }
            },
        }
        k += 1;
        assert(s@ =~= start + contents_markdown(
            contents@,
            first_image as nat,
            image_prefix@,
            k as int,
        ));
    }
    image_index
}

proof fn image_count_grows(contents: Seq<Content<ImageColor>>, a: int, b: int)
    requires
        0 <= a <= b,
    ensures
        image_count(contents, a) <= image_count(contents, b),
    decreases b,
{
    if a < b {
        image_count_grows(contents, a, b - 1);
    }
}

/// The number of saved images in the first `j` of `chapters`.
pub open spec fn images_in_chapters(chapters: Seq<Chapter<ImageColor>>, j: int) -> nat
    decreases j,
{
    if j <= 0 {
        0
    } else {
        images_in_chapters(chapters, j - 1) + image_count(
            chapters[j - 1].contents@,
            chapters[j - 1].contents@.len() as int,
        )
    }
}

/// The number of saved images in the first `v` of `volumes`.
pub open spec fn images_before(volumes: Seq<Volume<ImageColor>>, v: int) -> nat
    decreases v,
{
    if v <= 0 {
        0
    } else {
        images_before(volumes, v - 1) + images_in_chapters(
            volumes[v - 1].chapters@,
            volumes[v - 1].chapters@.len() as int,
        )
    }
}

proof fn images_in_chapters_grows(chapters: Seq<Chapter<ImageColor>>, a: int, b: int)
    requires
        0 <= a <= b,
    ensures
        images_in_chapters(chapters, a) <= images_in_chapters(chapters, b),
    decreases b,
{
    if a < b {
        images_in_chapters_grows(chapters, a, b - 1);
    }
}

proof fn images_before_grows(volumes: Seq<Volume<ImageColor>>, a: int, b: int)
    requires
        0 <= a <= b,
    ensures
        images_before(volumes, a) <= images_before(volumes, b),
    decreases b,
{
    if a < b {
        images_before_grows(volumes, a, b - 1);
    }
}

/// The saved images of a novel are numbered from 1 with at least three
/// digits, so a novel can hold at most 65534 of them.
pub open spec fn images_fit(novel: Novel<ImageColor>) -> bool {
    images_before(novel.volumes@, novel.volumes@.len() as int) < 65535
}

/// `s` without its last character, if it has one.
pub open spec fn without_last(s: Seq<char>) -> Seq<char> {
    if s.len() == 0 {
        s
    } else {
        s.drop_last()
    }
}

/// A file of a generated book: its path, relative to the directory of the
/// book's pages, and its text.
pub struct Page {
    pub path: String,
    pub text: String,
}

pub open spec fn page_view(page: Page) -> (Seq<char>, Seq<char>) {
    (page.path@, page.text@)
}

pub open spec fn page_views(pages: Seq<Page>) -> Seq<(Seq<char>, Seq<char>)> {
    pages.map_values(|p: Page| page_view(p))
}

/// The page of a chapter whose saved images are numbered from `first_image`:
/// its title as a heading, then its paragraphs and images, each followed by
/// an empty line, without the last line break.
pub open spec fn chapter_page_text(
    chapter: Chapter<ImageColor>,
    first_image: nat,
    image_prefix: Seq<char>,
) -> Seq<char> {
    "# "@ + chapter.title@ + "\n"@ + "\n"@ + without_last(
        contents_markdown(
            chapter.contents@,
            first_image,
            image_prefix,
            chapter.contents@.len() as int,
        ),
    )
}

/// The pages of the first `j` chapters of `volume`, in the directory `dir`,
/// numbered from `first_chapter`, with saved images numbered from
/// `first_image`.
pub open spec fn chapter_pages(
    volume: Volume<ImageColor>,
    dir: Seq<char>,
    first_chapter: nat,
    first_image: nat,
    image_prefix: Seq<char>,
    j: int,
) -> Seq<(Seq<char>, Seq<char>)>
    decreases j,
{
    if j <= 0 {
        Seq::empty()
    } else {
        chapter_pages(volume, dir, first_chapter, first_image, image_prefix, j - 1).push(
            (
                dir + "/"@ + chapter_file((first_chapter + j - 1) as nat),
                chapter_page_text(
                    volume.chapters@[j - 1],
                    first_image + images_in_chapters(volume.chapters@, j - 1),
                    image_prefix,
                ),
            ),
        )
    }
}

/// The pages of the volume at `v`: none for a volume without chapters, else
/// its `README.md` with its title, then the pages of its chapters.
pub open spec fn volume_pages(
    volumes: Seq<Volume<ImageColor>>,
    v: int,
    image_prefix: Seq<char>,
) -> Seq<(Seq<char>, Seq<char>)> {
    let volume = volumes[v];
    let dir = volume_dir((v + 1) as nat);
    if volume.chapters@.len() == 0 {
        Seq::empty()
    } else {
        seq![(dir + "/README.md"@, "# "@ + volume.title@ + "\n"@)] + chapter_pages(
            volume,
            dir,
            chapters_before(volumes, v) + 1,
            images_before(volumes, v) + 1,
            image_prefix,
            volume.chapters@.len() as int,
        )
    }
}

/// The pages of the first `n` volumes of an mdBook.
pub open spec fn mdbook_pages(
    volumes: Seq<Volume<ImageColor>>,
    n: int,
    image_prefix: Seq<char>,
) -> Seq<(Seq<char>, Seq<char>)>
    decreases n,
{
    if n <= 0 {
        Seq::empty()
    } else {
        mdbook_pages(volumes, n - 1, image_prefix) + volume_pages(volumes, n - 1, image_prefix)
    }
}

fn chapter_page(chapter: &Chapter<ImageColor>, first_image: u16, image_prefix: &str) -> (r: (
    String,
    u16,
))
    requires
        first_image + image_count(chapter.contents@, chapter.contents@.len() as int) < 65536,
    ensures
        r.0@ == chapter_page_text(*chapter, first_image as nat, image_prefix@),
        r.1 == first_image + image_count(chapter.contents@, chapter.contents@.len() as int),
{
    let mut body = String::new();
    let next = push_contents(&mut body, &chapter.contents, first_image, image_prefix);
    let body = pop_last(body);
    let mut text = String::new();
    push_str(&mut text, "# ");
    push_str(&mut text, chapter.title.as_str());
    push_str(&mut text, "\n");
    push_str(&mut text, "\n");
    push_str(&mut text, body.as_str());
    (text, next)
}

/// `s` without its last character, if it has one.
fn pop_last(s: String) -> (r: String)
    ensures
        r@ == without_last(s@),
{
    let chars = crate::text::chars_of(s.as_str());
    if chars.len() == 0 {
        return s;
    }
    let mut r = String::new();
    let last = chars.len() - 1;
    let mut i: usize = 0;
    while i < last
        invariant
            chars@ == s@,
            last == chars@.len() - 1,
            i <= last,
            r@ == s@.take(i as int),
        decreases chars@.len() - i,
    {
        r.push(chars[i]);
        i += 1;
        assert(r@ =~= s@.take(i as int));
    }
    assert(r@ =~= s@.drop_last());
    r
}

/// Appends the pages of the volume at `v`.
fn push_volume_pages(
    pages: &mut Vec<Page>,
    volumes: &Vec<Volume<ImageColor>>,
    v: usize,
    first_chapter: u16,
    first_image: u16,
    image_prefix: &str,
)
    requires
        v < volumes@.len() < 65535,
        first_chapter == chapters_before(volumes@, v as int) + 1,
        chapters_before(volumes@, v as int + 1) < 65535,
        first_image == images_before(volumes@, v as int) + 1,
        images_before(volumes@, v as int + 1) < 65535,
    ensures
        page_views(final(pages)@) == page_views(old(pages)@) + volume_pages(
            volumes@,
            v as int,
            image_prefix@,
        ),
{
    let volume = &volumes[v];
    let dir = volume_dir_name((v + 1) as u16);
    if volume.chapters.len() == 0 {
        assert(page_views(pages@) =~= page_views(old(pages)@) + volume_pages(
            volumes@,
            v as int,
            image_prefix@,
        ));
        return ;
    }
    let mut readme_path = dir.clone();
    push_str(&mut readme_path, "/README.md");
    let mut readme = String::new();
    push_str(&mut readme, "# ");
    push_str(&mut readme, volume.title.as_str());
    push_str(&mut readme, "\n");
    proof {
        assert(dir@ == volume_dir((v + 1) as nat));
    }
    pages.push(Page { path: readme_path, text: readme });
    assert(page_views(pages@) =~= page_views(old(pages)@).push(
        (volume_dir((v + 1) as nat) + "/README.md"@, "# "@ + volume.title@ + "\n"@),
    ));
    let ghost head = page_views(pages@);
    let mut chapter_index = first_chapter;
    let mut image_index = first_image;
    let mut j: usize = 0;
    while j < volume.chapters.len()
        invariant
            j <= volume.chapters@.len(),
            volume == volumes@[v as int],
            dir@ == volume_dir((v + 1) as nat),
            first_chapter == chapters_before(volumes@, v as int) + 1,
            chapters_before(volumes@, v as int + 1) < 65535,
            first_image == images_before(volumes@, v as int) + 1,
            images_before(volumes@, v as int + 1) < 65535,
            chapter_index == first_chapter + j,
            image_index == first_image + images_in_chapters(volume.chapters@, j as int),
            page_views(pages@) == head + chapter_pages(
                *volume,
                dir@,
                first_chapter as nat,
                first_image as nat,
                image_prefix@,
                j as int,
            ),
        decreases volume.chapters@.len() - j,
    {
        proof {
            images_in_chapters_grows(volume.chapters@, j + 1, volume.chapters@.len() as int);
        }
        let (text, next) = chapter_page(&volume.chapters[j], image_index, image_prefix);
        let mut path = dir.clone();
        push_str(&mut path, "/");
        let file = chapter_file_name(chapter_index);
        push_str(&mut path, file.as_str());
        let ghost before = pages@;
        pages.push(Page { path, text });
        proof {
            assert(page_views(pages@) =~= page_views(before).push(page_view(pages@.last())));
        }
        chapter_index += 1;
        image_index = next;
        j += 1;
    }
    assert(page_views(pages@) =~= page_views(old(pages)@) + volume_pages(
        volumes@,
        v as int,
        image_prefix@,
    ));
}

/// The volume and chapter pages of the mdBook of `novel`, where the pages
/// link the saved images under `image_prefix`.
pub fn mdbook_chapter_pages(novel: &Novel<ImageColor>, image_prefix: &str) -> (r: Vec<Page>)
    requires
        numbering_fits(*novel),
        images_fit(*novel),
    ensures
        page_views(r@) == mdbook_pages(
            novel.volumes@,
            novel.volumes@.len() as int,
            image_prefix@,
        ),
{
    let mut pages: Vec<Page> = Vec::new();
    let ghost volumes = novel.volumes@;
    let mut chapter_index: u16 = 1;
    let mut image_index: u16 = 1;
    let mut v: usize = 0;
    while v < novel.volumes.len()
        invariant
            v <= volumes.len() < 65535,
            volumes == novel.volumes@,
            chapters_before(volumes, volumes.len() as int) < 65535,
            images_before(volumes, volumes.len() as int) < 65535,
            chapter_index == chapters_before(volumes, v as int) + 1,
            image_index == images_before(volumes, v as int) + 1,
            page_views(pages@) == mdbook_pages(volumes, v as int, image_prefix@),
        decreases volumes.len() - v,
    {
        proof {
            chapters_before_grows(volumes, v + 1, volumes.len() as int);
            images_before_grows(volumes, v + 1, volumes.len() as int);
        }
        push_volume_pages(&mut pages, &novel.volumes, v, chapter_index, image_index, image_prefix);
        chapter_index = chapter_index + novel.volumes[v].chapters.len() as u16;
        image_index = image_index + chapter_image_total(&novel.volumes[v].chapters);
        v += 1;
    }
    pages
}

/// The number of saved images in `chapters`.
fn chapter_image_total(chapters: &Vec<Chapter<ImageColor>>) -> (r: u16)
    requires
        images_in_chapters(chapters@, chapters@.len() as int) < 65535,
    ensures
        r == images_in_chapters(chapters@, chapters@.len() as int),
{
    let mut total: u16 = 0;
    let mut j: usize = 0;
    while j < chapters.len()
        invariant
            j <= chapters@.len(),
            images_in_chapters(chapters@, chapters@.len() as int) < 65535,
            total == images_in_chapters(chapters@, j as int),
        decreases chapters@.len() - j,
    {
        proof {
            images_in_chapters_grows(chapters@, j + 1, chapters@.len() as int);
        }
        let contents = &chapters[j].contents;
        let mut k: usize = 0;
        let ghost base = total;
        while k < contents.len()
            invariant
                k <= contents@.len(),
                contents == chapters@[j as int].contents,
                base + image_count(contents@, contents@.len() as int) < 65535,
                total == base + image_count(contents@, k as int),
            decreases contents@.len() - k,
        {
            proof {
                image_count_grows(contents@, k + 1, contents@.len() as int);
            }
            match &contents[k] {
                Content::Image(color) => {
                    if crate::images::new_image_ext(*color).is_ok() {
                        total += 1;
                    }
                },
                Content::Text(_) => {},
            }
            k += 1;
        }
        j += 1;
    }
    total
}

/// The first `n` of `lines`, each followed by an empty line.
pub open spec fn lines_markdown(lines: Seq<String>, n: int) -> Seq<char>
    decreases n,
{
    if n <= 0 {
        Seq::empty()
    } else {
        lines_markdown(lines, n - 1) + lines[n - 1]@ + "\n\n"@
    }
}

fn push_lines(s: &mut String, lines: &Vec<String>)
    ensures
        final(s)@ == old(s)@ + lines_markdown(lines@, lines@.len() as int),
{
    let ghost start = s@;
    let mut i: usize = 0;
    while i < lines.len()
        invariant
            i <= lines@.len(),
            s@ == start + lines_markdown(lines@, i as int),
        decreases lines@.len() - i,
    {
        push_str(s, lines[i].as_str());
        push_str(s, "\n\n");
        i += 1;
        assert(s@ =~= start + lines_markdown(lines@, i as int));
    }
}

/// The `introduction.md` of an mdBook: the title as a heading, then the
/// lines of the introduction, each followed by an empty line, without the
/// last line break.
pub open spec fn introduction_page_spec(title: Seq<char>, lines: Seq<String>) -> Seq<char> {
    "# "@ + title + "\n"@ + "\n"@ + without_last(lines_markdown(lines, lines.len() as int))
}

/// The `introduction.md` of an mdBook with the given title and lines.
pub fn introduction_page(title: &str, lines: &Vec<String>) -> (r: String)
    ensures
        r@ == introduction_page_spec(title@, lines@),
{
    let mut body = String::new();
    push_lines(&mut body, lines);
    let body = pop_last(body);
    let mut r = String::new();
    push_str(&mut r, "# ");
    push_str(&mut r, title);
    push_str(&mut r, "\n");
    push_str(&mut r, "\n");
    push_str(&mut r, body.as_str());
    r
}

/// The `cover.md` of an mdBook: the title as a heading and, where the cover
/// is saved, the cover image linked under `image_prefix`.
pub open spec fn cover_page_spec(title: Seq<char>, cover: ImageColor, image_prefix: Seq<char>) -> Seq<
    char,
> {
    "# "@ + title + "\n"@ + match spec_image_ext(cover) {
        Some(ext) => "\n"@ + "![]("@ + image_prefix + crate::images::cover_name(ext) + ")"@
            + "\n"@,
        None => Seq::empty(),
    }
}

/// The `cover.md` of an mdBook with the given title, for a cover of color
/// type `cover`.
pub fn cover_page(title: &str, cover: ImageColor, image_prefix: &str) -> (r: String)
    ensures
        r@ == cover_page_spec(title@, cover, image_prefix@),
{
    let mut r = String::new();
    push_str(&mut r, "# ");
    push_str(&mut r, title);
    push_str(&mut r, "\n");
    let ghost head = r@;
    match crate::images::cover_image_name(cover) {
        Ok(name) => {
            push_str(&mut r, "\n");
            push_str(&mut r, "![](");
            push_str(&mut r, image_prefix);
            push_str(&mut r, name.as_str());
            push_str(&mut r, ")");
            push_str(&mut r, "\n");
        },
        Err(_) => {},
    }
    assert(r@ =~= cover_page_spec(title@, cover, image_prefix@));
    r
}

/// The markdown of the first `j` chapters of a volume in a pandoc file:
/// each title as a second-level heading, then its paragraphs and images.
pub open spec fn pandoc_chapters(
    chapters: Seq<Chapter<ImageColor>>,
    first_image: nat,
    j: int,
) -> Seq<char>
    decreases j,
{
    if j <= 0 {
        Seq::empty()
    } else {
        pandoc_chapters(chapters, first_image, j - 1) + "## "@ + chapters[j - 1].title@ + "\n\n"@
            + contents_markdown(
            chapters[j - 1].contents@,
            first_image + images_in_chapters(chapters, j - 1),
            Seq::empty(),
            chapters[j - 1].contents@.len() as int,
        )
    }
}

/// The markdown of the volume at `v` in a pandoc file: nothing for a volume
/// without chapters, else its title as a heading, then its chapters.
pub open spec fn pandoc_volume(volumes: Seq<Volume<ImageColor>>, v: int) -> Seq<char> {
    let volume = volumes[v];
    if volume.chapters@.len() == 0 {
        Seq::empty()
    } else {
        "# "@ + volume.title@ + "\n\n"@ + pandoc_chapters(
            volume.chapters@,
            images_before(volumes, v) + 1,
            volume.chapters@.len() as int,
        )
    }
}

pub open spec fn pandoc_volumes(volumes: Seq<Volume<ImageColor>>, n: int) -> Seq<char>
    decreases n,
{
    if n <= 0 {
        Seq::empty()
    } else {
        pandoc_volumes(volumes, n - 1) + pandoc_volume(volumes, n - 1)
    }
}

fn push_pandoc_volume(s: &mut String, volumes: &Vec<Volume<ImageColor>>, v: usize, first_image: u16)
    requires
        v < volumes@.len(),
        first_image == images_before(volumes@, v as int) + 1,
        images_before(volumes@, v as int + 1) < 65535,
    ensures
        final(s)@ == old(s)@ + pandoc_volume(volumes@, v as int),
{
    let volume = &volumes[v];
    if volume.chapters.len() == 0 {
        assert(s@ =~= old(s)@ + pandoc_volume(volumes@, v as int));
        return ;
    }
    push_str(s, "# ");
    push_str(s, volume.title.as_str());
    push_str(s, "\n\n");
    let ghost head = s@;
    let mut image_index = first_image;
    let mut j: usize = 0;
    while j < volume.chapters.len()
        invariant
            j <= volume.chapters@.len(),
            volume == volumes@[v as int],
            first_image == images_before(volumes@, v as int) + 1,
            images_before(volumes@, v as int + 1) < 65535,
            image_index == first_image + images_in_chapters(volume.chapters@, j as int),
            s@ == head + pandoc_chapters(volume.chapters@, first_image as nat, j as int),
        decreases volume.chapters@.len() - j,
    {
        proof {
            images_in_chapters_grows(volume.chapters@, j + 1, volume.chapters@.len() as int);
        }
        let chapter = &volume.chapters[j];
        let ghost before = s@;
        let ghost first_of_chapter = image_index;
        push_str(s, "## ");
        push_str(s, chapter.title.as_str());
        push_str(s, "\n\n");
        let no_prefix = String::new();
        image_index = push_contents(s, &chapter.contents, image_index, no_prefix.as_str());
        assert(s@ =~= before + "## "@ + chapter.title@ + "\n\n"@ + contents_markdown(
            chapter.contents@,
            first_of_chapter as nat,
            Seq::empty(),
            chapter.contents@.len() as int,
        ));
        j += 1;
        assert(s@ =~= head + pandoc_chapters(volume.chapters@, first_image as nat, j as int));
    }
    assert(s@ =~= old(s)@ + pandoc_volume(volumes@, v as int));
}

/// The introduction part of a pandoc file: nothing without an introduction,
/// else the title as a heading, then each line followed by an empty line.
pub open spec fn pandoc_introduction(
    introduction: Option<Vec<String>>,
    introduction_title: Seq<char>,
) -> Seq<char> {
    match introduction {
        None => Seq::empty(),
        Some(lines) => "# "@ + introduction_title + "\n\n"@ + lines_markdown(
            lines@,
            lines@.len() as int,
        ),
    }
}

/// `s` without one line break where it ends with an empty line.
pub open spec fn trim_final_blank(s: Seq<char>) -> Seq<char> {
    if s.len() >= 2 && s[s.len() - 1] == '\n' && s[s.len() - 2] == '\n' {
        s.drop_last()
    } else {
        s
    }
}

/// The pandoc markdown file of `novel`: the metadata block and a line break,
/// the introduction, then the volumes, without the last line break where the
/// text ends with an empty line.
pub open spec fn pandoc_markdown_spec(
    novel: Novel<ImageColor>,
    metadata_block: Seq<char>,
    introduction_title: Seq<char>,
) -> Seq<char> {
    trim_final_blank(
        metadata_block + "\n"@ + pandoc_introduction(novel.introduction, introduction_title)
            + pandoc_volumes(novel.volumes@, novel.volumes@.len() as int),
    )
}

/// The pandoc markdown file of `novel`, after the given metadata block and
/// with the given title for the introduction.
pub fn pandoc_markdown(
    novel: &Novel<ImageColor>,
    metadata_block: &str,
    introduction_title: &str,
) -> (r: String)
    requires
        images_fit(*novel),
    ensures
        r@ == pandoc_markdown_spec(*novel, metadata_block@, introduction_title@),
{
    let mut s = String::new();
    push_str(&mut s, metadata_block);
    push_str(&mut s, "\n");
    if let Some(lines) = &novel.introduction {
        push_str(&mut s, "# ");
        push_str(&mut s, introduction_title);
        push_str(&mut s, "\n\n");
        push_lines(&mut s, lines);
    }
    let ghost head = s@;
    assert(head =~= metadata_block@ + "\n"@ + pandoc_introduction(
        novel.introduction,
        introduction_title@,
    ));
    let ghost volumes = novel.volumes@;
    let mut image_index: u16 = 1;
    let mut v: usize = 0;
    while v < novel.volumes.len()
        invariant
            v <= volumes.len(),
            volumes == novel.volumes@,
            images_before(volumes, volumes.len() as int) < 65535,
            image_index == images_before(volumes, v as int) + 1,
            s@ == head + pandoc_volumes(volumes, v as int),
        decreases volumes.len() - v,
    {
        proof {
            images_before_grows(volumes, v + 1, volumes.len() as int);
        }
        push_pandoc_volume(&mut s, &novel.volumes, v, image_index);
        image_index = image_index + chapter_image_total(&novel.volumes[v].chapters);
        v += 1;
        assert(s@ =~= head + pandoc_volumes(volumes, v as int));
    }
    let chars = crate::text::chars_of(s.as_str());
    let n = chars.len();
    if n >= 2 && chars[n - 1] == '\n' && chars[n - 2] == '\n' {
        pop_last(s)
    } else {
        s
    }
}

/// The `SUMMARY.md` of the mdBook of `novel`, with the titles "目录"
/// (contents), "封面" (cover) and "简介" (introduction) converted by
/// `converts`.
pub fn mdbook_summary<I, F: Fn(OpenccMode, &String) -> Result<String, ConvertError>>(
    novel: &Novel<I>,
    converts: &[Convert],
    opencc: &F,
) -> (r: Result<String, ConvertError>)
    requires
        opencc_callable(*opencc),
        numbering_fits(*novel),
    ensures
        converts@.len() == 0 ==> (r matches Ok(s) && s@ == summary_spec(
            *novel,
            "目录"@,
            "封面"@,
            "简介"@,
        )),
        spec_opencc_mode(converts@) is None ==> r is Ok,
        r matches Ok(s) ==> exists|toc: String, cover: String, intro: String|
            {
                &&& seq_converted(*opencc, converts@, false, "目录"@, toc)
                &&& seq_converted(*opencc, converts@, false, "封面"@, cover)
                &&& seq_converted(*opencc, converts@, false, "简介"@, intro)
                &&& s@ == summary_spec(*novel, toc@, cover@, intro@)
            },
        r matches Err(e) ==> opencc_failed_on(*opencc, converts@, "目录"@, e) || opencc_failed_on(
            *opencc,
            converts@,
            "封面"@,
            e,
        ) || opencc_failed_on(*opencc, converts@, "简介"@, e),
{
    let toc = convert_text_of("目录", converts, false, opencc)?;
    let cover = convert_text_of("封面", converts, false, opencc)?;
    let intro = convert_text_of("简介", converts, false, opencc)?;
    Ok(summary_text(novel, toc.as_str(), cover.as_str(), intro.as_str()))
}

/// The `cover.md` of the mdBook of a novel with a cover of color type
/// `cover`, titled "封面" (cover) converted by `converts`.
pub fn mdbook_cover_page<F: Fn(OpenccMode, &String) -> Result<String, ConvertError>>(
    cover: ImageColor,
    image_prefix: &str,
    converts: &[Convert],
    opencc: &F,
) -> (r: Result<String, ConvertError>)
    requires
        opencc_callable(*opencc),
    ensures
        converts@.len() == 0 ==> (r matches Ok(s) && s@ == cover_page_spec(
            "封面"@,
            cover,
            image_prefix@,
        )),
        spec_opencc_mode(converts@) is None ==> r is Ok,
        r matches Ok(s) ==> exists|title: String|
            seq_converted(*opencc, converts@, false, "封面"@, title) && s@ == cover_page_spec(
                title@,
                cover,
                image_prefix@,
            ),
        r matches Err(e) ==> opencc_failed_on(*opencc, converts@, "封面"@, e),
{
    let title = convert_text_of("封面", converts, false, opencc)?;
    Ok(cover_page(title.as_str(), cover, image_prefix))
}

/// The `introduction.md` of the mdBook of a novel with the introduction
/// `lines`, titled "简介" (introduction) converted by `converts`.
pub fn mdbook_introduction_page<F: Fn(OpenccMode, &String) -> Result<String, ConvertError>>(
    lines: &Vec<String>,
    converts: &[Convert],
    opencc: &F,
) -> (r: Result<String, ConvertError>)
    requires
        opencc_callable(*opencc),
    ensures
        converts@.len() == 0 ==> (r matches Ok(s) && s@ == introduction_page_spec(
            "简介"@,
            lines@,
        )),
        spec_opencc_mode(converts@) is None ==> r is Ok,
        r matches Ok(s) ==> exists|title: String|
            seq_converted(*opencc, converts@, false, "简介"@, title) && s@ == introduction_page_spec(
                title@,
                lines@,
            ),
        r matches Err(e) ==> opencc_failed_on(*opencc, converts@, "简介"@, e),
{
    let title = convert_text_of("简介", converts, false, opencc)?;
    Ok(introduction_page(title.as_str(), lines))
}

/// The pandoc markdown file of `novel` after the metadata block
/// `metadata_block`, with the introduction titled "简介" (introduction)
/// converted by `converts`; the title is converted only where the novel has
/// an introduction.
pub fn pandoc_document<F: Fn(OpenccMode, &String) -> Result<String, ConvertError>>(
    novel: &Novel<ImageColor>,
    metadata_block: &str,
    converts: &[Convert],
    opencc: &F,
) -> (r: Result<String, ConvertError>)
    requires
        opencc_callable(*opencc),
        images_fit(*novel),
    ensures
        converts@.len() == 0 ==> (r matches Ok(s) && s@ == pandoc_markdown_spec(
            *novel,
            metadata_block@,
            "简介"@,
        )),
        spec_opencc_mode(converts@) is None || novel.introduction is None ==> r is Ok,
        r matches Ok(s) ==> exists|title: String|
            #![trigger pandoc_markdown_spec(*novel, metadata_block@, title@)]
            (novel.introduction is Some ==> seq_converted(*opencc, converts@, false, "简介"@, title))
                && s@ == pandoc_markdown_spec(*novel, metadata_block@, title@),
        r matches Err(e) ==> novel.introduction is Some && opencc_failed_on(
            *opencc,
            converts@,
            "简介"@,
            e,
        ),
{
    if novel.introduction.is_some() {
        let title = convert_text_of("简介", converts, false, opencc)?;
        let r = pandoc_markdown(novel, metadata_block, title.as_str());
        assert(r@ == pandoc_markdown_spec(*novel, metadata_block@, title@));
        Ok(r)
    } else {
        let title = String::new();
        let r = pandoc_markdown(novel, metadata_block, title.as_str());
        assert(r@ == pandoc_markdown_spec(*novel, metadata_block@, "简介"@));
        assert(r@ == pandoc_markdown_spec(*novel, metadata_block@, title@));
        Ok(r)
    }
}

/// The introduction of a novel as one text, its lines joined by line breaks.
pub open spec fn description_spec(introduction: Option<Vec<String>>) -> Option<Seq<char>> {
    match introduction {
        None => None,
        Some(lines) => Some(join_spec(views(lines@), "\n"@)),
    }
}

fn description(introduction: &Option<Vec<String>>) -> (r: Option<String>)
    ensures
        match description_spec(*introduction) {
            None => r is None,
            Some(d) => r matches Some(s) && s@ == d,
        },
{
    match introduction {
        None => None,
        Some(lines) => Some(join(lines, "\n")),
    }
}

/// The metadata block of the pandoc file of `novel` converted by `converts`:
/// its name and author, the language of the conversion, its introduction as
/// the description, and the cover file name where the cover is saved.
pub fn pandoc_metadata(novel: &Novel<ImageColor>, converts: &[Convert]) -> (r: Metadata)
    ensures
        r.title@ == novel.name@,
        r.author@ == novel.author_name@,
        r.lang@ == lang_tag(spec_lang(converts@)),
        match description_spec(novel.introduction) {
            None => r.description is None,
            Some(d) => r.description matches Some(s) && s@ == d,
        },
        match novel.cover_image {
            Some(color) => match spec_image_ext(color) {
                Some(ext) => r.cover_image matches Some(name) && name@
                    == crate::images::cover_name(ext),
                None => r.cover_image is None,
            },
            None => r.cover_image is None,
        },
{
    let cover_image = match novel.cover_image {
        Some(color) => crate::images::cover_image_name(color).ok(),
        None => None,
    };
    Metadata {
        title: novel.name.clone(),
        author: novel.author_name.clone(),
        lang: lang_tag_string(lang(converts)),
        description: description(&novel.introduction),
        cover_image,
    }
}

/// The `book.toml` settings of the mdBook of a novel.
pub struct BookConfig {
    pub title: String,
    pub description: Option<String>,
    pub authors: Vec<String>,
    pub language: Lang,
    /// Chapters are listed without section numbers.
    pub no_section_label: bool,
}

/// The `book.toml` settings of the mdBook of `novel` converted by
/// `converts`: its name, its introduction as the description, its author,
/// the language of the conversion, and no section numbers.
pub fn book_config<I>(novel: &Novel<I>, converts: &[Convert]) -> (r: BookConfig)
    ensures
        r.title@ == novel.name@,
        match description_spec(novel.introduction) {
            None => r.description is None,
            Some(d) => r.description matches Some(s) && s@ == d,
        },
        r.authors@.len() == 1,
        r.authors@[0]@ == novel.author_name@,
        r.language == spec_lang(converts@),
        r.no_section_label,
{
    let mut authors: Vec<String> = Vec::new();
    authors.push(novel.author_name.clone());
    BookConfig {
        title: novel.name.clone(),
        description: description(&novel.introduction),
        authors,
        language: lang(converts),
        no_section_label: true,
    }
}

/// The color types of the images among the first `n` of `contents`, in order.
pub open spec fn content_colors(contents: Seq<Content<ImageColor>>, n: int) -> Seq<ImageColor>
    decreases n,
{
    if n <= 0 {
        Seq::empty()
    } else {
        match contents[n - 1] {
            Content::Image(color) => content_colors(contents, n - 1).push(color),
            Content::Text(_) => content_colors(contents, n - 1),
        }
    }
}

/// The color types of the images of the first `j` of `chapters`, in order.
pub open spec fn chapters_colors(chapters: Seq<Chapter<ImageColor>>, j: int) -> Seq<ImageColor>
    decreases j,
{
    if j <= 0 {
        Seq::empty()
    } else {
        chapters_colors(chapters, j - 1) + content_colors(
            chapters[j - 1].contents@,
            chapters[j - 1].contents@.len() as int,
        )
    }
}

/// The color types of the images of the first `v` of `volumes`, in order.
pub open spec fn volumes_colors(volumes: Seq<Volume<ImageColor>>, v: int) -> Seq<ImageColor>
    decreases v,
{
    if v <= 0 {
        Seq::empty()
    } else {
        volumes_colors(volumes, v - 1) + chapters_colors(
            volumes[v - 1].chapters@,
            volumes[v - 1].chapters@.len() as int,
        )
    }
}

/// The color types of the images of a novel's chapters, in the order of the
/// novel: the order in which they are numbered and saved.
pub fn image_colors(novel: &Novel<ImageColor>) -> (r: Vec<ImageColor>)
    ensures
        r@ == volumes_colors(novel.volumes@, novel.volumes@.len() as int),
{
    let mut r: Vec<ImageColor> = Vec::new();
    let mut v: usize = 0;
    while v < novel.volumes.len()
        invariant
            v <= novel.volumes@.len(),
            r@ == volumes_colors(novel.volumes@, v as int),
        decreases novel.volumes@.len() - v,
    {
        let chapters = &novel.volumes[v].chapters;
        let ghost base = r@;
        let mut j: usize = 0;
        while j < chapters.len()
            invariant
                j <= chapters@.len(),
                r@ == base + chapters_colors(chapters@, j as int),
            decreases chapters@.len() - j,
        {
            let contents = &chapters[j].contents;
            let ghost before = r@;
            let mut k: usize = 0;
            while k < contents.len()
                invariant
                    k <= contents@.len(),
                    r@ == before + content_colors(contents@, k as int),
                decreases contents@.len() - k,
            {
                match &contents[k] {
                    Content::Image(color) => r.push(*color),
                    Content::Text(_) => {},
                }
                k += 1;
                assert(r@ =~= before + content_colors(contents@, k as int));
            }
            j += 1;
            assert(r@ =~= base + chapters_colors(chapters@, j as int));
        }
        v += 1;
        assert(r@ =~= volumes_colors(novel.volumes@, v as int));
    }
    r
}

/// The number of saved images in `s`.
pub open spec fn saved_in(s: Seq<ImageColor>) -> nat {
    supported_count(s, s.len() as int)
}

proof fn supported_count_prefix(s: Seq<ImageColor>, t: Seq<ImageColor>, n: int)
    requires
        0 <= n <= s.len(),
        n <= t.len(),
        s.take(n) == t.take(n),
    ensures
        supported_count(s, n) == supported_count(t, n),
    decreases n,
{
    if n > 0 {
        assert(s[n - 1] == s.take(n)[n - 1]);
        assert(t[n - 1] == t.take(n)[n - 1]);
        assert(s.take(n - 1) =~= s.take(n).take(n - 1));
        assert(t.take(n - 1) =~= t.take(n).take(n - 1));
        supported_count_prefix(s, t, n - 1);
    }
}

proof fn saved_in_concat(a: Seq<ImageColor>, b: Seq<ImageColor>)
    ensures
        saved_in(a + b) == saved_in(a) + saved_in(b),
    decreases b.len(),
{
    if b.len() == 0 {
        assert(a + b =~= a);
    } else {
        saved_in_concat(a, b.drop_last());
        assert((a + b).drop_last() =~= a + b.drop_last());
        assert((a + b).take((a + b).len() - 1) =~= (a + b.drop_last()).take((a + b).len() - 1));
        assert(b.take(b.len() - 1) =~= b.drop_last().take(b.len() - 1));
        supported_count_prefix(a + b, a + b.drop_last(), (a + b).len() - 1);
        supported_count_prefix(b, b.drop_last(), b.len() - 1);
        assert((a + b)[(a + b).len() - 1] == b.last());
    }
}

proof fn image_count_is_saved(contents: Seq<Content<ImageColor>>, n: int)
    requires
        0 <= n <= contents.len(),
    ensures
        image_count(contents, n) == saved_in(content_colors(contents, n)),
    decreases n,
{
    if n > 0 {
        image_count_is_saved(contents, n - 1);
        let before = content_colors(contents, n - 1);
        match contents[n - 1] {
            Content::Image(color) => {
                saved_in_concat(before, seq![color]);
                assert(before.push(color) =~= before + seq![color]);
                assert(supported_count(seq![color], 0) == 0);
                assert(saved_in(seq![color]) == if spec_image_ext(color) is Some {
                    1nat
                } else {
                    0nat
                });
            },
            Content::Text(_) => {},
        }
    }
}

proof fn images_in_chapters_is_saved(chapters: Seq<Chapter<ImageColor>>, j: int)
    requires
        0 <= j <= chapters.len(),
    ensures
        images_in_chapters(chapters, j) == saved_in(chapters_colors(chapters, j)),
    decreases j,
{
    if j > 0 {
        images_in_chapters_is_saved(chapters, j - 1);
        let c = chapters[j - 1].contents@;
        image_count_is_saved(c, c.len() as int);
        saved_in_concat(chapters_colors(chapters, j - 1), content_colors(c, c.len() as int));
    }
}

proof fn images_before_is_saved(volumes: Seq<Volume<ImageColor>>, v: int)
    requires
        0 <= v <= volumes.len(),
    ensures
        images_before(volumes, v) == saved_in(volumes_colors(volumes, v)),
    decreases v,
{
    if v > 0 {
        images_before_is_saved(volumes, v - 1);
        let chs = volumes[v - 1].chapters@;
        images_in_chapters_is_saved(chs, chs.len() as int);
        saved_in_concat(volumes_colors(volumes, v - 1), chapters_colors(chs, chs.len() as int));
    }
}

proof fn content_colors_prefix(contents: Seq<Content<ImageColor>>, a: int, b: int)
    requires
        0 <= a <= b <= contents.len(),
    ensures
        content_colors(contents, a).len() <= content_colors(contents, b).len(),
        content_colors(contents, b).take(content_colors(contents, a).len() as int)
            == content_colors(contents, a),
    decreases b,
{
    if a < b {
        content_colors_prefix(contents, a, b - 1);
        let x = content_colors(contents, a);
        let y = content_colors(contents, b - 1);
        assert(content_colors(contents, b).take(x.len() as int) =~= y.take(x.len() as int));
    } else {
        assert(content_colors(contents, b).take(content_colors(contents, a).len() as int)
            =~= content_colors(contents, a));
    }
}

proof fn chapters_colors_prefix(chapters: Seq<Chapter<ImageColor>>, a: int, b: int)
    requires
        0 <= a <= b <= chapters.len(),
    ensures
        chapters_colors(chapters, a).len() <= chapters_colors(chapters, b).len(),
        chapters_colors(chapters, b).take(chapters_colors(chapters, a).len() as int)
            == chapters_colors(chapters, a),
    decreases b,
{
    if a < b {
        chapters_colors_prefix(chapters, a, b - 1);
        let x = chapters_colors(chapters, a);
        let y = chapters_colors(chapters, b - 1);
        assert(chapters_colors(chapters, b).take(x.len() as int) =~= y.take(x.len() as int));
    } else {
        assert(chapters_colors(chapters, b).take(chapters_colors(chapters, a).len() as int)
            =~= chapters_colors(chapters, a));
    }
}

proof fn volumes_colors_prefix(volumes: Seq<Volume<ImageColor>>, a: int, b: int)
    requires
        0 <= a <= b <= volumes.len(),
    ensures
        volumes_colors(volumes, a).len() <= volumes_colors(volumes, b).len(),
        volumes_colors(volumes, b).take(volumes_colors(volumes, a).len() as int)
            == volumes_colors(volumes, a),
    decreases b,
{
    if a < b {
        volumes_colors_prefix(volumes, a, b - 1);
        let x = volumes_colors(volumes, a);
        let y = volumes_colors(volumes, b - 1);
        assert(volumes_colors(volumes, b).take(x.len() as int) =~= y.take(x.len() as int));
    } else {
        assert(volumes_colors(volumes, b).take(volumes_colors(volumes, a).len() as int)
            =~= volumes_colors(volumes, a));
    }
}

/// The image at content `k` of chapter `j` of volume `v` is linked from the
/// pages (mdBook and pandoc alike) under the very name it is saved under:
/// the name that `image_names` gives to its place among `image_colors`.
pub proof fn page_links_match_saved_names(
    volumes: Seq<Volume<ImageColor>>,
    v: int,
    j: int,
    k: int,
    color: ImageColor,
)
    requires
        0 <= v < volumes.len(),
        0 <= j < volumes[v].chapters@.len(),
        0 <= k < volumes[v].chapters@[j].contents@.len(),
        volumes[v].chapters@[j].contents@[k] == Content::Image(color),
    ensures
        ({
            let chapters = volumes[v].chapters@;
            let contents = chapters[j].contents@;
            let p = volumes_colors(volumes, v).len() as int + chapters_colors(chapters, j).len()
                as int + content_colors(contents, k).len() as int;
            let flat = volumes_colors(volumes, volumes.len() as int);
            &&& 0 <= p < flat.len()
            &&& flat[p] == color
            &&& nth_image_name(flat, p) == match spec_image_ext(color) {
                Some(ext) => Some(
                    image_name(
                        images_before(volumes, v) + 1 + images_in_chapters(chapters, j)
                            + image_count(contents, k),
                        ext,
                    ),
                ),
                None => None::<Seq<char>>,
            }
        }),
{
    let chapters = volumes[v].chapters@;
    let contents = chapters[j].contents@;
    let a = volumes_colors(volumes, v);
    let b = chapters_colors(chapters, j);
    let c = content_colors(contents, k);
    let prefix = a + b + c.push(color);
    let flat = volumes_colors(volumes, volumes.len() as int);
    content_colors_prefix(contents, k + 1, contents.len() as int);
    assert(content_colors(contents, k + 1) == c.push(color));
    chapters_colors_prefix(chapters, j + 1, chapters.len() as int);
    volumes_colors_prefix(volumes, v + 1, volumes.len() as int);
    let whole_chapter = content_colors(contents, contents.len() as int);
    let whole_volume = chapters_colors(chapters, chapters.len() as int);
    assert(chapters_colors(chapters, j + 1) == b + whole_chapter);
    assert(volumes_colors(volumes, v + 1) == a + whole_volume);
    assert(whole_chapter.take(c.len() + 1int) == c.push(color));
    assert(whole_volume.take((b + whole_chapter).len() as int) == b + whole_chapter);
    assert(flat.take((a + whole_volume).len() as int) == a + whole_volume);
    let p = a.len() as int + b.len() as int + c.len() as int;
    assert(flat.take(p + 1) =~= prefix) by {
        assert((a + whole_volume).take(p + 1) =~= a + whole_volume.take(b.len() + c.len() + 1int));
        assert(whole_volume.take(b.len() + c.len() + 1int) =~= (b + whole_chapter).take(
            b.len() + c.len() + 1int,
        ));
        assert((b + whole_chapter).take(b.len() + c.len() + 1int) =~= b + whole_chapter.take(
            c.len() + 1int,
        ));
        assert(flat.take(p + 1) =~= flat.take((a + whole_volume).len() as int).take(p + 1));
    }
    assert(flat[p] == prefix[p]);
    assert(flat.take(p) =~= prefix.take(p));
    supported_count_prefix(flat, prefix, p);
    assert(prefix.take(p) =~= a + b + c);
    assert((a + b + c).take(p) =~= a + b + c);
    supported_count_prefix(prefix, a + b + c, p);
    saved_in_concat(a, b);
    saved_in_concat(a + b, c);
    images_before_is_saved(volumes, v);
    images_in_chapters_is_saved(chapters, j);
    image_count_is_saved(contents, k);
}

/// `part` stands in `text` somewhere before its last character.
pub open spec fn occurs_in(part: Seq<char>, text: Seq<char>) -> bool {
    exists|at: int|
        0 <= at && at + part.len() < text.len() && #[trigger] text.subrange(at, at + part.len())
            == part
}

proof fn occurs_after(part: Seq<char>, a: Seq<char>, b: Seq<char>)
    requires
        occurs_in(part, b),
    ensures
        occurs_in(part, a + b),
{
    let at = choose|at: int|
        0 <= at && at + part.len() < b.len() && #[trigger] b.subrange(at, at + part.len()) == part;
    let at2 = a.len() + at;
    assert((a + b).subrange(at2, at2 + part.len()) =~= b.subrange(at, at + part.len()));
}

proof fn occurs_before(part: Seq<char>, a: Seq<char>, b: Seq<char>)
    requires
        occurs_in(part, a),
    ensures
        occurs_in(part, a + b),
{
    let at = choose|at: int|
        0 <= at && at + part.len() < a.len() && #[trigger] a.subrange(at, at + part.len()) == part;
    assert((a + b).subrange(at, at + part.len()) =~= a.subrange(at, at + part.len()));
}

/// The link of an image file in a pandoc file.
pub open spec fn pandoc_link(name: Seq<char>) -> Seq<char> {
    "![]("@ + name + ")"@
}

proof fn contents_link(contents: Seq<Content<ImageColor>>, first: nat, k: int, n: int, ext: ImageExt)
    requires
        0 <= k < n <= contents.len(),
        contents[k] matches Content::Image(color) && spec_image_ext(color) == Some(ext),
    ensures
        occurs_in(
            pandoc_link(image_name(first + image_count(contents, k), ext)),
            contents_markdown(contents, first, Seq::empty(), n),
        ),
    decreases n,
{
    if n == k + 1 {
        let link = pandoc_link(image_name(first + image_count(contents, k), ext));
        let piece = content_markdown(contents[k], first + image_count(contents, k), Seq::empty());
        reveal_strlit("\n\n");
        assert(piece =~= link + "\n\n"@);
        assert("\n\n"@.len() == 2);
        assert(piece.len() == link.len() + 2);
        let at: int = 0;
        assert(piece.subrange(at, at + link.len()) =~= link);
        assert(occurs_in(link, piece));
        occurs_after(link, contents_markdown(contents, first, Seq::empty(), k), piece);
    } else {
        contents_link(contents, first, k, n - 1, ext);
        occurs_before(
            pandoc_link(image_name(first + image_count(contents, k), ext)),
            contents_markdown(contents, first, Seq::empty(), n - 1),
            content_markdown(
                contents[n - 1],
                first + image_count(contents, n - 1),
                Seq::empty(),
            ),
        );
    }
}

proof fn chapters_link(
    chapters: Seq<Chapter<ImageColor>>,
    first: nat,
    j: int,
    k: int,
    n: int,
    ext: ImageExt,
)
    requires
        0 <= j < n <= chapters.len(),
        0 <= k < chapters[j].contents@.len(),
        chapters[j].contents@[k] matches Content::Image(color) && spec_image_ext(color) == Some(
            ext,
        ),
    ensures
        occurs_in(
            pandoc_link(
                image_name(
                    first + images_in_chapters(chapters, j) + image_count(chapters[j].contents@, k),
                    ext,
                ),
            ),
            pandoc_chapters(chapters, first, n),
        ),
    decreases n,
{
    let link = pandoc_link(
        image_name(
            first + images_in_chapters(chapters, j) + image_count(chapters[j].contents@, k),
            ext,
        ),
    );
    if n == j + 1 {
        let contents = chapters[j].contents@;
        contents_link(
            contents,
            first + images_in_chapters(chapters, j),
            k,
            contents.len() as int,
            ext,
        );
        occurs_after(
            link,
            pandoc_chapters(chapters, first, j) + "## "@ + chapters[j].title@ + "\n\n"@,
            contents_markdown(
                contents,
                first + images_in_chapters(chapters, j),
                Seq::empty(),
                contents.len() as int,
            ),
        );
    } else {
        chapters_link(chapters, first, j, k, n - 1, ext);
        let c = chapters[n - 1];
        occurs_before(
            link,
            pandoc_chapters(chapters, first, n - 1),
            "## "@ + c.title@ + "\n\n"@ + contents_markdown(
                c.contents@,
                first + images_in_chapters(chapters, n - 1),
                Seq::empty(),
                c.contents@.len() as int,
            ),
        );
        assert(pandoc_chapters(chapters, first, n) =~= pandoc_chapters(chapters, first, n - 1) + (
        "## "@ + c.title@ + "\n\n"@ + contents_markdown(
            c.contents@,
            first + images_in_chapters(chapters, n - 1),
            Seq::empty(),
            c.contents@.len() as int,
        )));
    }
}

proof fn volumes_link(volumes: Seq<Volume<ImageColor>>, v: int, j: int, k: int, n: int, ext: ImageExt)
    requires
        0 <= v < n <= volumes.len(),
        0 <= j < volumes[v].chapters@.len(),
        0 <= k < volumes[v].chapters@[j].contents@.len(),
        volumes[v].chapters@[j].contents@[k] matches Content::Image(color) && spec_image_ext(color)
            == Some(ext),
    ensures
        occurs_in(
            pandoc_link(
                image_name(
                    images_before(volumes, v) + 1 + images_in_chapters(volumes[v].chapters@, j)
                        + image_count(volumes[v].chapters@[j].contents@, k),
                    ext,
                ),
            ),
            pandoc_volumes(volumes, n),
        ),
    decreases n,
{
    let chapters = volumes[v].chapters@;
    let link = pandoc_link(
        image_name(
            images_before(volumes, v) + 1 + images_in_chapters(chapters, j) + image_count(
                chapters[j].contents@,
                k,
            ),
            ext,
        ),
    );
    if n == v + 1 {
        chapters_link(chapters, images_before(volumes, v) + 1, j, k, chapters.len() as int, ext);
        occurs_after(
            link,
            "# "@ + volumes[v].title@ + "\n\n"@,
            pandoc_chapters(chapters, images_before(volumes, v) + 1, chapters.len() as int),
        );
        occurs_after(link, pandoc_volumes(volumes, v), pandoc_volume(volumes, v));
    } else {
        volumes_link(volumes, v, j, k, n - 1, ext);
        occurs_before(link, pandoc_volumes(volumes, n - 1), pandoc_volume(volumes, n - 1));
    }
}

/// Each saved image of a novel is linked in its pandoc file under the name it
/// is saved under: the image at content `k` of chapter `j` of the volume at
/// `v` is numbered after all the saved images before it in the whole novel
/// (over all volumes and chapters), which is the name that `image_names`
/// gives to its place among `image_colors`.
pub proof fn pandoc_links_saved_names(
    novel: Novel<ImageColor>,
    metadata_block: Seq<char>,
    introduction_title: Seq<char>,
    v: int,
    j: int,
    k: int,
    color: ImageColor,
    ext: ImageExt,
)
    requires
        0 <= v < novel.volumes@.len(),
        0 <= j < novel.volumes@[v].chapters@.len(),
        0 <= k < novel.volumes@[v].chapters@[j].contents@.len(),
        novel.volumes@[v].chapters@[j].contents@[k] == Content::Image(color),
        spec_image_ext(color) == Some(ext),
    ensures
        ({
            let volumes = novel.volumes@;
            let chapters = volumes[v].chapters@;
            let p = volumes_colors(volumes, v).len() as int + chapters_colors(chapters, j).len()
                as int + content_colors(chapters[j].contents@, k).len() as int;
            let flat = volumes_colors(volumes, volumes.len() as int);
            &&& nth_image_name(flat, p) is Some
            &&& occurs_in(
                pandoc_link(nth_image_name(flat, p)->Some_0),
                pandoc_markdown_spec(novel, metadata_block, introduction_title),
            )
        }),
{
    let volumes = novel.volumes@;
    page_links_match_saved_names(volumes, v, j, k, color);
    volumes_link(volumes, v, j, k, volumes.len() as int, ext);
    let chapters = volumes[v].chapters@;
    let link = pandoc_link(
        image_name(
            images_before(volumes, v) + 1 + images_in_chapters(chapters, j) + image_count(
                chapters[j].contents@,
                k,
            ),
            ext,
        ),
    );
    let head = metadata_block + "\n"@ + pandoc_introduction(novel.introduction, introduction_title);
    let whole = pandoc_volumes(volumes, volumes.len() as int);
    occurs_after(link, head, whole);
    let x = head + whole;
    assert(x =~= metadata_block + "\n"@ + pandoc_introduction(novel.introduction, introduction_title)
        + whole);
    if x.len() >= 2 && x[x.len() - 1] == '\n' && x[x.len() - 2] == '\n' {
        let at = choose|at: int|
            0 <= at && at + link.len() < x.len() && #[trigger] x.subrange(at, at + link.len())
                == link;
        if at + link.len() + 1 == x.len() {
            assert(x.subrange(at, at + link.len())[link.len() - 1] == x[x.len() - 2]);
            reveal_strlit(")");
            assert(link[link.len() - 1] == ')');
        }
        assert(x.drop_last().subrange(at, at + link.len()) =~= x.subrange(at, at + link.len()));
        assert(occurs_in(link, x.drop_last()));
    }
}

/// Where the table of contents links chapter `j` of the volume at `v`.
pub open spec fn summary_link<I>(volumes: Seq<Volume<I>>, v: int, j: int) -> Seq<char> {
    volume_dir((v + 1) as nat) + "/"@ + chapter_file((chapters_before(volumes, v) + 1 + j) as nat)
}

proof fn chapter_pages_paths(
    volume: Volume<ImageColor>,
    dir: Seq<char>,
    first_chapter: nat,
    first_image: nat,
    image_prefix: Seq<char>,
    m: int,
)
    requires
        0 <= m,
    ensures
        chapter_pages(volume, dir, first_chapter, first_image, image_prefix, m).len() == m,
        forall|j: int|
            0 <= j < m ==> (#[trigger] chapter_pages(
                volume,
                dir,
                first_chapter,
                first_image,
                image_prefix,
                m,
            )[j]).0 == dir + "/"@ + chapter_file((first_chapter + j) as nat),
    decreases m,
{
    if m > 0 {
        chapter_pages_paths(volume, dir, first_chapter, first_image, image_prefix, m - 1);
        let before = chapter_pages(volume, dir, first_chapter, first_image, image_prefix, m - 1);
        let after = chapter_pages(volume, dir, first_chapter, first_image, image_prefix, m);
        assert forall|j: int| 0 <= j < m implies (#[trigger] after[j]).0 == dir + "/"@
            + chapter_file((first_chapter + j) as nat) by {
            if j < m - 1 {
                assert(after[j] == before[j]);
            }
        }
    }
}

proof fn mdbook_pages_prefix(
    volumes: Seq<Volume<ImageColor>>,
    a: int,
    b: int,
    image_prefix: Seq<char>,
)
    requires
        0 <= a <= b,
    ensures
        mdbook_pages(volumes, a, image_prefix).len() <= mdbook_pages(volumes, b, image_prefix).len(),
        forall|i: int|
            0 <= i < mdbook_pages(volumes, a, image_prefix).len() ==> mdbook_pages(
                volumes,
                b,
                image_prefix,
            )[i] == mdbook_pages(volumes, a, image_prefix)[i],
    decreases b,
{
    if a < b {
        mdbook_pages_prefix(volumes, a, b - 1, image_prefix);
    }
}

/// Each entry of the table of contents of an mdBook names the file of its
/// chapter's page: the page of chapter `j` of the volume at `v` comes right
/// after the volume's `README.md`, under the path that `SUMMARY.md` links.
pub proof fn summary_links_name_pages(
    volumes: Seq<Volume<ImageColor>>,
    v: int,
    j: int,
    image_prefix: Seq<char>,
)
    requires
        0 <= v < volumes.len(),
        0 <= j < volumes[v].chapters@.len(),
    ensures
        ({
            let pages = mdbook_pages(volumes, volumes.len() as int, image_prefix);
            let i = mdbook_pages(volumes, v, image_prefix).len() + 1 + j;
            &&& 0 <= i < pages.len()
            &&& pages[i].0 == summary_link(volumes, v, j)
            &&& pages[i - 1 - j].0 == volume_dir((v + 1) as nat) + "/README.md"@
        }),
{
    let volume = volumes[v];
    let dir = volume_dir((v + 1) as nat);
    let first_chapter = chapters_before(volumes, v) + 1;
    let first_image = images_before(volumes, v) + 1;
    let n = volume.chapters@.len() as int;
    chapter_pages_paths(volume, dir, first_chapter, first_image, image_prefix, n);
    let chapters = chapter_pages(volume, dir, first_chapter, first_image, image_prefix, n);
    let here = volume_pages(volumes, v, image_prefix);
    assert(here == seq![(dir + "/README.md"@, "# "@ + volume.title@ + "\n"@)] + chapters);
    assert(here[1 + j] == chapters[j]);
    let before = mdbook_pages(volumes, v, image_prefix);
    let upto = mdbook_pages(volumes, v + 1, image_prefix);
    assert(upto == before + here);
    assert(upto[before.len() + 1 + j] == here[1 + j]);
    assert(upto[before.len() as int] == here[0]);
    mdbook_pages_prefix(volumes, v + 1, volumes.len() as int, image_prefix);
}

/// The places `(volume, chapter, content)` of the images among the first
/// `n` of `contents`, in chapter `j` of volume `v`.
pub open spec fn content_places<I>(contents: Seq<Content<I>>, v: int, j: int, n: int) -> Seq<
    (int, int, int),
>
    decreases n,
{
    if n <= 0 {
        Seq::empty()
    } else {
        match contents[n - 1] {
            Content::Image(_) => content_places(contents, v, j, n - 1).push((v, j, n - 1)),
            Content::Text(_) => content_places(contents, v, j, n - 1),
        }
    }
}

pub open spec fn chapters_places<I>(chapters: Seq<Chapter<I>>, v: int, j: int) -> Seq<
    (int, int, int),
>
    decreases j,
{
    if j <= 0 {
        Seq::empty()
    } else {
        chapters_places(chapters, v, j - 1) + content_places(
            chapters[j - 1].contents@,
            v,
            j - 1,
            chapters[j - 1].contents@.len() as int,
        )
    }
}

/// The places of the images of the first `v` of `volumes`, in the order of
/// the novel.
pub open spec fn volumes_places<I>(volumes: Seq<Volume<I>>, v: int) -> Seq<(int, int, int)>
    decreases v,
{
    if v <= 0 {
        Seq::empty()
    } else {
        volumes_places(volumes, v - 1) + chapters_places(
            volumes[v - 1].chapters@,
            v - 1,
            volumes[v - 1].chapters@.len() as int,
        )
    }
}

pub open spec fn place_views(places: Seq<(usize, usize, usize)>) -> Seq<(int, int, int)> {
    places.map_values(|p: (usize, usize, usize)| (p.0 as int, p.1 as int, p.2 as int))
}

/// The places `(volume, chapter, content)` of the images of a novel's
/// chapters, in the order in which they are numbered and saved.
pub fn image_places<I>(novel: &Novel<I>) -> (r: Vec<(usize, usize, usize)>)
    ensures
        place_views(r@) == volumes_places(novel.volumes@, novel.volumes@.len() as int),
{
    let mut r: Vec<(usize, usize, usize)> = Vec::new();
    let mut v: usize = 0;
    while v < novel.volumes.len()
        invariant
            v <= novel.volumes@.len(),
            place_views(r@) == volumes_places(novel.volumes@, v as int),
        decreases novel.volumes@.len() - v,
    {
        let chapters = &novel.volumes[v].chapters;
        let ghost base = place_views(r@);
        let mut j: usize = 0;
        while j < chapters.len()
            invariant
                j <= chapters@.len(),
                place_views(r@) == base + chapters_places(chapters@, v as int, j as int),
            decreases chapters@.len() - j,
        {
            let contents = &chapters[j].contents;
            let ghost before = place_views(r@);
            let mut k: usize = 0;
            while k < contents.len()
                invariant
                    k <= contents@.len(),
                    place_views(r@) == before + content_places(
                        contents@,
                        v as int,
                        j as int,
                        k as int,
                    ),
                decreases contents@.len() - k,
            {
                match &contents[k] {
                    Content::Image(_) => {
                        let ghost old_r = r@;
                        r.push((v, j, k));
                        assert(place_views(r@) =~= place_views(old_r).push(
                            (v as int, j as int, k as int),
                        ));
                    },
                    Content::Text(_) => {},
                }
                k += 1;
                assert(place_views(r@) =~= before + content_places(
                    contents@,
                    v as int,
                    j as int,
                    k as int,
                ));
            }
            j += 1;
            assert(place_views(r@) =~= base + chapters_places(chapters@, v as int, j as int));
        }
        v += 1;
        assert(place_views(r@) =~= volumes_places(novel.volumes@, v as int));
    }
    r
}

proof fn content_places_match(contents: Seq<Content<ImageColor>>, v: int, j: int, n: int)
    requires
        0 <= n <= contents.len(),
    ensures
        content_places(contents, v, j, n).len() == content_colors(contents, n).len(),
        forall|i: int|
            0 <= i < content_colors(contents, n).len() ==> {
                let p = #[trigger] content_places(contents, v, j, n)[i];
                &&& p.0 == v && p.1 == j && 0 <= p.2 < n
                &&& contents[p.2] == Content::Image(content_colors(contents, n)[i])
            },
    decreases n,
{
    if n > 0 {
        content_places_match(contents, v, j, n - 1);
        let a = content_places(contents, v, j, n);
        let b = content_places(contents, v, j, n - 1);
        let c = content_colors(contents, n);
        let d = content_colors(contents, n - 1);
        assert forall|i: int| 0 <= i < c.len() implies {
            let p = #[trigger] a[i];
            &&& p.0 == v && p.1 == j && 0 <= p.2 < n
            &&& contents[p.2] == Content::Image(c[i])
        } by {
            if i < d.len() {
                assert(a[i] == b[i]);
                assert(c[i] == d[i]);
            }
        }
    }
}

proof fn chapters_places_match(chapters: Seq<Chapter<ImageColor>>, v: int, j: int)
    requires
        0 <= j <= chapters.len(),
    ensures
        chapters_places(chapters, v, j).len() == chapters_colors(chapters, j).len(),
        forall|i: int|
            0 <= i < chapters_colors(chapters, j).len() ==> {
                let p = #[trigger] chapters_places(chapters, v, j)[i];
                &&& p.0 == v && 0 <= p.1 < j && 0 <= p.2 < chapters[p.1].contents@.len()
                &&& chapters[p.1].contents@[p.2] == Content::Image(chapters_colors(chapters, j)[i])
            },
    decreases j,
{
    if j > 0 {
        chapters_places_match(chapters, v, j - 1);
        let contents = chapters[j - 1].contents@;
        content_places_match(contents, v, j - 1, contents.len() as int);
        let a = chapters_places(chapters, v, j);
        let b = chapters_places(chapters, v, j - 1);
        let e = content_places(contents, v, j - 1, contents.len() as int);
        let c = chapters_colors(chapters, j);
        let d = chapters_colors(chapters, j - 1);
        let f = content_colors(contents, contents.len() as int);
        assert forall|i: int| 0 <= i < c.len() implies {
            let p = #[trigger] a[i];
            &&& p.0 == v && 0 <= p.1 < j && 0 <= p.2 < chapters[p.1].contents@.len()
            &&& chapters[p.1].contents@[p.2] == Content::Image(c[i])
        } by {
            if i < d.len() {
                assert(a[i] == b[i]);
                assert(c[i] == d[i]);
            } else {
                assert(a[i] == e[i - d.len()]);
                assert(c[i] == f[i - d.len()]);
            }
        }
    }
}

/// The places of a novel's images and their color types go together: the
/// `i`-th image that `image_places` gives is the image whose color type is
/// the `i`-th of `image_colors`, so each image is saved under the name that
/// `image_names` gives to its color type's place.
pub proof fn image_places_match_colors(volumes: Seq<Volume<ImageColor>>, v: int)
    requires
        0 <= v <= volumes.len(),
    ensures
        volumes_places(volumes, v).len() == volumes_colors(volumes, v).len(),
        forall|i: int|
            0 <= i < volumes_colors(volumes, v).len() ==> {
                let p = #[trigger] volumes_places(volumes, v)[i];
                &&& 0 <= p.0 < v && 0 <= p.1 < volumes[p.0].chapters@.len()
                &&& 0 <= p.2 < volumes[p.0].chapters@[p.1].contents@.len()
                &&& volumes[p.0].chapters@[p.1].contents@[p.2] == Content::Image(
                    volumes_colors(volumes, v)[i],
                )
            },
    decreases v,
{
    if v > 0 {
        image_places_match_colors(volumes, v - 1);
        let chapters = volumes[v - 1].chapters@;
        chapters_places_match(chapters, v - 1, chapters.len() as int);
        let a = volumes_places(volumes, v);
        let b = volumes_places(volumes, v - 1);
        let e = chapters_places(chapters, v - 1, chapters.len() as int);
        let c = volumes_colors(volumes, v);
        let d = volumes_colors(volumes, v - 1);
        let f = chapters_colors(chapters, chapters.len() as int);
        assert forall|i: int| 0 <= i < c.len() implies {
            let p = #[trigger] a[i];
            &&& 0 <= p.0 < v && 0 <= p.1 < volumes[p.0].chapters@.len()
            &&& 0 <= p.2 < volumes[p.0].chapters@[p.1].contents@.len()
            &&& volumes[p.0].chapters@[p.1].contents@[p.2] == Content::Image(c[i])
        } by {
            if i < d.len() {
                assert(a[i] == b[i]);
                assert(c[i] == d[i]);
            } else {
                assert(a[i] == e[i - d.len()]);
                assert(c[i] == f[i - d.len()]);
            }
        }
    }
}

/// Whether the volumes, chapters and saved images of `novel` can all be
/// numbered: fewer than 65535 of each.
pub fn numbering_fits_novel(novel: &Novel<ImageColor>) -> (r: bool)
    ensures
        r == (numbering_fits(*novel) && images_fit(*novel)),
{
    if novel.volumes.len() >= 65535 {
        return false;
    }
    let ghost volumes = novel.volumes@;
    let mut chapters: u32 = 0;
    let mut images: u32 = 0;
    let mut v: usize = 0;
    while v < novel.volumes.len()
        invariant
            v <= volumes.len() < 65535,
            volumes == novel.volumes@,
            chapters == chapters_before(volumes, v as int),
            images == images_before(volumes, v as int),
            chapters < 65535,
            images < 65535,
        decreases volumes.len() - v,
    {
        let volume = &novel.volumes[v];
        if volume.chapters.len() >= 65535 {
            proof {
                chapters_before_grows(volumes, v + 1, volumes.len() as int);
            }
            return false;
        }
        let more = volume.chapters.len() as u32;
        if chapters + more >= 65535 {
            proof {
                chapters_before_grows(volumes, v + 1, volumes.len() as int);
            }
            return false;
        }
        let mut j: usize = 0;
        let mut in_volume: u32 = 0;
        while j < volume.chapters.len()
            invariant
                j <= volume.chapters@.len(),
                v < volumes.len(),
                volumes == novel.volumes@,
                volume == volumes[v as int],
                images == images_before(volumes, v as int),
                images + in_volume < 65535,
                in_volume == images_in_chapters(volume.chapters@, j as int),
            decreases volume.chapters@.len() - j,
        {
            let contents = &volume.chapters[j].contents;
            let mut k: usize = 0;
            let ghost base = in_volume;
            while k < contents.len()
                invariant
                    k <= contents@.len(),
                    j < volume.chapters@.len(),
                    v < volumes.len(),
                    volumes == novel.volumes@,
                    volume == volumes[v as int],
                    images == images_before(volumes, v as int),
                    base == images_in_chapters(volume.chapters@, j as int),
                    contents == volume.chapters@[j as int].contents,
                    images + in_volume < 65535,
                    in_volume == base + image_count(contents@, k as int),
                decreases contents@.len() - k,
            {
                match &contents[k] {
                    Content::Image(color) => {
                        if crate::images::new_image_ext(*color).is_ok() {
                            if images + in_volume + 1 >= 65535 {
                                proof {
                                    image_count_grows(contents@, k + 1, contents@.len() as int);
                                    images_in_chapters_grows(
                                        volume.chapters@,
                                        j + 1,
                                        volume.chapters@.len() as int,
                                    );
                                    images_before_grows(volumes, v + 1, volumes.len() as int);
                                }
                                return false;
                            }
                            in_volume += 1;
                        }
                    },
                    Content::Text(_) => {},
                }
                k += 1;
            }
            j += 1;
        }
        chapters = chapters + more;
        images = images + in_volume;
        v += 1;
    }
    true
}

} // verus!
