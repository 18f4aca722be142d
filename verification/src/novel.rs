use vstd::prelude::*;

use crate::convert::{
    converted_string_is_tidy, has_no_edge_whitespace,
    convert_str, opencc_callable, opencc_failed, spec_opencc_mode, text_converted, Convert, ConvertError, OpenccMode,
};

verus! {

/// A novel: its text, and its images of type `I`.
pub struct Novel<I> {
    pub name: String,
    pub author_name: String,
    pub introduction: Option<Vec<String>>,
    pub cover_image: Option<I>,
    pub volumes: Vec<Volume<I>>,
}

pub struct Volume<I> {
    pub title: String,
    pub chapters: Vec<Chapter<I>>,
}

pub struct Chapter<I> {
    pub id: u32,
    pub title: String,
    pub contents: Vec<Content<I>>,
}

/// A paragraph of a chapter, or an image in it.
pub enum Content<I> {
    Text(String),
    Image(I),
}

/// `new` holds the conversion of each text of `old` and the same images.
pub open spec fn content_converted<I, F: Fn(OpenccMode, &String) -> Result<String, ConvertError>>(
    opencc: F,
    converts: Seq<Convert>,
    old: Content<I>,
    new: Content<I>,
) -> bool {
    match old {
        Content::Text(t) => new matches Content::Text(n) && text_converted(
            opencc,
            converts,
            false,
            t,
            n,
        ),
        Content::Image(_) => new == old,
    }
}

pub open spec fn chapter_converted<I, F: Fn(OpenccMode, &String) -> Result<String, ConvertError>>(
    opencc: F,
    converts: Seq<Convert>,
    old: Chapter<I>,
    new: Chapter<I>,
) -> bool {
    &&& new.id == old.id
    &&& text_converted(opencc, converts, true, old.title, new.title)
    &&& new.contents@.len() == old.contents@.len()
    &&& forall|k: int|
        0 <= k < old.contents@.len() ==> content_converted(
            opencc,
            converts,
            #[trigger] old.contents@[k],
            new.contents@[k],
        )
}

pub open spec fn volume_converted<I, F: Fn(OpenccMode, &String) -> Result<String, ConvertError>>(
    opencc: F,
    converts: Seq<Convert>,
    old: Volume<I>,
    new: Volume<I>,
) -> bool {
    &&& text_converted(opencc, converts, true, old.title, new.title)
    &&& new.chapters@.len() == old.chapters@.len()
    &&& forall|j: int|
        0 <= j < old.chapters@.len() ==> chapter_converted(
            opencc,
            converts,
            #[trigger] old.chapters@[j],
            new.chapters@[j],
        )
}

/// The name, the author, the introduction and the cover of `new` are those of
/// `old` converted.
pub open spec fn novel_head_converted<
    I,
    F: Fn(OpenccMode, &String) -> Result<String, ConvertError>,
>(opencc: F, converts: Seq<Convert>, old: Novel<I>, new: Novel<I>) -> bool {
    &&& text_converted(opencc, converts, false, old.name, new.name)
    &&& text_converted(opencc, converts, false, old.author_name, new.author_name)
    &&& new.cover_image == old.cover_image
    &&& match old.introduction {
        None => new.introduction is None,
        Some(lines) => new.introduction matches Some(new_lines) && new_lines@.len()
            == lines@.len() && forall|k: int|
            0 <= k < lines@.len() ==> text_converted(
                opencc,
                converts,
                false,
                #[trigger] lines@[k],
                new_lines@[k],
            ),
    }
}

/// `new` is `old` with every text converted: the name, the author and the
/// introduction as body text, volume and chapter titles as headings, and the
/// paragraphs as body text. Images, chapter ids and the shape are kept.
pub open spec fn novel_converted<I, F: Fn(OpenccMode, &String) -> Result<String, ConvertError>>(
    opencc: F,
    converts: Seq<Convert>,
    old: Novel<I>,
    new: Novel<I>,
) -> bool {
    &&& novel_head_converted(opencc, converts, old, new)
    &&& new.volumes@.len() == old.volumes@.len()
    &&& forall|i: int|
        0 <= i < old.volumes@.len() ==> volume_converted(
            opencc,
            converts,
            #[trigger] old.volumes@[i],
            new.volumes@[i],
        )
}

/// The conversion of the text of `content` failed in OpenCC with `e`.
pub open spec fn content_failed<I, F: Fn(OpenccMode, &String) -> Result<String, ConvertError>>(
    opencc: F,
    converts: Seq<Convert>,
    content: Content<I>,
    e: ConvertError,
) -> bool {
    content matches Content::Text(t) && opencc_failed(opencc, converts, t, e)
}

/// The conversion of a text of `chapter` (its title or a paragraph) failed
/// in OpenCC with `e`.
pub open spec fn chapter_failed<I, F: Fn(OpenccMode, &String) -> Result<String, ConvertError>>(
    opencc: F,
    converts: Seq<Convert>,
    chapter: Chapter<I>,
    e: ConvertError,
) -> bool {
    ||| opencc_failed(opencc, converts, chapter.title, e)
    ||| exists|k: int|
        0 <= k < chapter.contents@.len() && content_failed(
            opencc,
            converts,
            #[trigger] chapter.contents@[k],
            e,
        )
}

/// The conversion of a text of `volume` failed in OpenCC with `e`.
pub open spec fn volume_failed<I, F: Fn(OpenccMode, &String) -> Result<String, ConvertError>>(
    opencc: F,
    converts: Seq<Convert>,
    volume: Volume<I>,
    e: ConvertError,
) -> bool {
    ||| opencc_failed(opencc, converts, volume.title, e)
    ||| exists|j: int|
        0 <= j < volume.chapters@.len() && chapter_failed(
            opencc,
            converts,
            #[trigger] volume.chapters@[j],
            e,
        )
}

/// The conversion of a text of `novel` (its name, author, an introduction
/// line, or a text of a volume) failed in OpenCC with `e`.
pub open spec fn novel_failed<I, F: Fn(OpenccMode, &String) -> Result<String, ConvertError>>(
    opencc: F,
    converts: Seq<Convert>,
    novel: Novel<I>,
    e: ConvertError,
) -> bool {
    ||| opencc_failed(opencc, converts, novel.name, e)
    ||| opencc_failed(opencc, converts, novel.author_name, e)
    ||| (novel.introduction matches Some(lines) && exists|k: int|
        0 <= k < lines@.len() && opencc_failed(opencc, converts, #[trigger] lines@[k], e))
    ||| exists|i: int|
        0 <= i < novel.volumes@.len() && volume_failed(
            opencc,
            converts,
            #[trigger] novel.volumes@[i],
            e,
        )
}

fn convert_contents<I, F: Fn(OpenccMode, &String) -> Result<String, ConvertError>>(
    contents: &mut Vec<Content<I>>,
    converts: &[Convert],
    opencc: &F,
) -> (r: Result<(), ConvertError>)
    requires
        opencc_callable(*opencc),
    ensures
        final(contents)@.len() == old(contents)@.len(),
        spec_opencc_mode(converts@) is None ==> r is Ok,
        r is Ok ==> forall|k: int|
            0 <= k < old(contents)@.len() ==> content_converted(
                *opencc,
                converts@,
                #[trigger] old(contents)@[k],
                final(contents)@[k],
            ),
        r matches Err(e) ==> exists|k: int|
            0 <= k < old(contents)@.len() && content_failed(
                *opencc,
                converts@,
                #[trigger] old(contents)@[k],
                e,
            ),
{
    let ghost old_contents = contents@;
    let mut k: usize = 0;
    while k < contents.len()
        invariant
            opencc_callable(*opencc),
            old_contents == old(contents)@,
            k <= contents@.len() == old_contents.len(),
            forall|j: int|
                0 <= j < k ==> content_converted(
                    *opencc,
                    converts@,
                    #[trigger] old_contents[j],
                    contents@[j],
                ),
            forall|j: int| k <= j < old_contents.len() ==> contents@[j] == old_contents[j],
        decreases old_contents.len() - k,
    {
        if let Content::Text(line) = &contents[k] {
            match convert_str(line, converts, false, opencc) {
                Ok(new_line) => contents.set(k, Content::Text(new_line)),
                Err(e) => {
                    assert(content_failed(*opencc, converts@, old_contents[k as int], e));
                    return Err(e);
                },
            }
        }
        k += 1;
    }
    Ok(())
}

fn convert_lines<F: Fn(OpenccMode, &String) -> Result<String, ConvertError>>(
    lines: &mut Vec<String>,
    converts: &[Convert],
    opencc: &F,
) -> (r: Result<(), ConvertError>)
    requires
        opencc_callable(*opencc),
    ensures
        final(lines)@.len() == old(lines)@.len(),
        spec_opencc_mode(converts@) is None ==> r is Ok,
        r is Ok ==> forall|k: int|
            0 <= k < old(lines)@.len() ==> text_converted(
                *opencc,
                converts@,
                false,
                #[trigger] old(lines)@[k],
                final(lines)@[k],
            ),
        r matches Err(e) ==> exists|k: int|
            0 <= k < old(lines)@.len() && opencc_failed(
                *opencc,
                converts@,
                #[trigger] old(lines)@[k],
                e,
            ),
{
    let ghost old_lines = lines@;
    let mut k: usize = 0;
    while k < lines.len()
        invariant
            opencc_callable(*opencc),
            old_lines == old(lines)@,
            k <= lines@.len() == old_lines.len(),
            forall|j: int|
                0 <= j < k ==> text_converted(
                    *opencc,
                    converts@,
                    false,
                    #[trigger] old_lines[j],
                    lines@[j],
                ),
            forall|j: int| k <= j < old_lines.len() ==> lines@[j] == old_lines[j],
        decreases old_lines.len() - k,
    {
        match convert_str(&lines[k], converts, false, opencc) {
            Ok(new_line) => lines.set(k, new_line),
            Err(e) => {
                assert(opencc_failed(*opencc, converts@, old_lines[k as int], e));
                return Err(e);
            },
        }
        k += 1;
    }
    Ok(())
}

fn convert_chapter<I, F: Fn(OpenccMode, &String) -> Result<String, ConvertError>>(
    chapter: &mut Chapter<I>,
    converts: &[Convert],
    opencc: &F,
) -> (r: Result<(), ConvertError>)
    requires
        opencc_callable(*opencc),
    ensures
        spec_opencc_mode(converts@) is None ==> r is Ok,
        r is Ok ==> chapter_converted(*opencc, converts@, *old(chapter), *final(chapter)),
        r matches Err(e) ==> chapter_failed(*opencc, converts@, *old(chapter), e),
        final(chapter).id == old(chapter).id,
        final(chapter).contents@.len() == old(chapter).contents@.len(),
{
    chapter.title = convert_str(&chapter.title, converts, true, opencc)?;
    convert_contents(&mut chapter.contents, converts, opencc)
}

fn convert_volume<I, F: Fn(OpenccMode, &String) -> Result<String, ConvertError>>(
    volume: &mut Volume<I>,
    converts: &[Convert],
    opencc: &F,
) -> (r: Result<(), ConvertError>)
    requires
        opencc_callable(*opencc),
    ensures
        spec_opencc_mode(converts@) is None ==> r is Ok,
        r is Ok ==> volume_converted(*opencc, converts@, *old(volume), *final(volume)),
        r matches Err(e) ==> volume_failed(*opencc, converts@, *old(volume), e),
{
    volume.title = convert_str(&volume.title, converts, true, opencc)?;
    let ghost old_chapters = volume.chapters@;
    let mut j: usize = 0;
    while j < volume.chapters.len()
        invariant
            opencc_callable(*opencc),
            text_converted(*opencc, converts@, true, old(volume).title, volume.title),
            old_chapters == old(volume).chapters@,
            j <= volume.chapters@.len() == old_chapters.len(),
            forall|x: int|
                0 <= x < j ==> chapter_converted(
                    *opencc,
                    converts@,
                    #[trigger] old_chapters[x],
                    volume.chapters@[x],
                ),
            forall|x: int| j <= x < old_chapters.len() ==> volume.chapters@[x] == old_chapters[x],
        decreases old_chapters.len() - j,
    {
        let ghost chapter = old_chapters[j as int];
        match convert_chapter(&mut volume.chapters[j], converts, opencc) {
            Ok(()) => {},
            Err(e) => {
                assert(chapter_failed(*opencc, converts@, chapter, e));
                assert(old(volume).chapters@[j as int] == chapter);
                return Err(e);
            },
        }
        j += 1;
    }
    Ok(())
}

/// Converts every text of `novel` by `converts`. With no conversion the
/// novel is left as it is; an error can only come from `opencc`.
pub fn convert<I, F: Fn(OpenccMode, &String) -> Result<String, ConvertError>>(
    novel: &mut Novel<I>,
    converts: &[Convert],
    opencc: &F,
) -> (r: Result<(), ConvertError>)
    requires
        opencc_callable(*opencc),
    ensures
        converts@.len() == 0 ==> r is Ok && *final(novel) == *old(novel),
        spec_opencc_mode(converts@) is None ==> r is Ok,
        r is Ok ==> novel_converted(*opencc, converts@, *old(novel), *final(novel)),
        r matches Err(e) ==> novel_failed(*opencc, converts@, *old(novel), e),
{
    if converts.len() == 0 {
        return Ok(());
    }
    novel.name = convert_str(&novel.name, converts, false, opencc)?;
    novel.author_name = convert_str(&novel.author_name, converts, false, opencc)?;
    if let Some(lines) = &mut novel.introduction {
        convert_lines(lines, converts, opencc)?;
    }
    let ghost old_volumes = novel.volumes@;
    assert(novel_head_converted(*opencc, converts@, *old(novel), *novel));
    let mut i: usize = 0;
    while i < novel.volumes.len()
        invariant
            opencc_callable(*opencc),
            converts@.len() > 0,
            old_volumes == old(novel).volumes@,
            novel_head_converted(*opencc, converts@, *old(novel), *novel),
            i <= novel.volumes@.len() == old_volumes.len(),
            forall|x: int|
                0 <= x < i ==> volume_converted(
                    *opencc,
                    converts@,
                    #[trigger] old_volumes[x],
                    novel.volumes@[x],
                ),
            forall|x: int| i <= x < old_volumes.len() ==> novel.volumes@[x] == old_volumes[x],
        decreases old_volumes.len() - i,
    {
        let ghost volume = old_volumes[i as int];
        match convert_volume(&mut novel.volumes[i], converts, opencc) {
            Ok(()) => {},
            Err(e) => {
                assert(volume_failed(*opencc, converts@, volume, e));
                assert(old(novel).volumes@[i as int] == volume);
                return Err(e);
            },
        }
        i += 1;
    }
    Ok(())
}

/// After a conversion by at least one conversion, no text of the novel (its
/// name, author, introduction lines, volume and chapter titles, paragraphs)
/// starts or ends with whitespace.
pub proof fn converted_novel_is_trimmed<
    I,
    F: Fn(OpenccMode, &String) -> Result<String, ConvertError>,
>(opencc: F, converts: Seq<Convert>, old: Novel<I>, new: Novel<I>)
    requires
        converts.len() > 0,
        novel_converted(opencc, converts, old, new),
    ensures
        has_no_edge_whitespace(new.name@),
        has_no_edge_whitespace(new.author_name@),
        new.introduction matches Some(lines) ==> forall|k: int|
            0 <= k < lines@.len() ==> has_no_edge_whitespace(#[trigger] lines@[k]@),
        forall|v: int|
            0 <= v < new.volumes@.len() ==> has_no_edge_whitespace(
                (#[trigger] new.volumes@[v]).title@,
            ),
        forall|v: int, j: int|
            0 <= v < new.volumes@.len() && 0 <= j < new.volumes@[v].chapters@.len()
                ==> has_no_edge_whitespace((#[trigger] new.volumes@[v].chapters@[j]).title@),
        forall|v: int, j: int, k: int|
            0 <= v < new.volumes@.len() && 0 <= j < new.volumes@[v].chapters@.len() && 0 <= k
                < new.volumes@[v].chapters@[j].contents@.len() ==> (
            #[trigger] new.volumes@[v].chapters@[j].contents@[k] matches Content::Text(t)
                ==> has_no_edge_whitespace(t@)),
{
    converted_string_is_tidy(opencc, converts, false, old.name, new.name);
    converted_string_is_tidy(opencc, converts, false, old.author_name, new.author_name);
    if let Some(lines) = new.introduction {
        let old_lines = old.introduction->Some_0;
        assert forall|k: int| 0 <= k < lines@.len() implies has_no_edge_whitespace(
            #[trigger] lines@[k]@,
        ) by {
            converted_string_is_tidy(opencc, converts, false, old_lines@[k], lines@[k]);
        }
    }
    assert forall|v: int| 0 <= v < new.volumes@.len() implies has_no_edge_whitespace(
        (#[trigger] new.volumes@[v]).title@,
    ) by {
        assert(volume_converted(opencc, converts, old.volumes@[v], new.volumes@[v]));
        converted_string_is_tidy(
            opencc,
            converts,
            true,
            old.volumes@[v].title,
            new.volumes@[v].title,
        );
    }
    assert forall|v: int, j: int|
        0 <= v < new.volumes@.len() && 0 <= j < new.volumes@[v].chapters@.len()
            implies has_no_edge_whitespace((#[trigger] new.volumes@[v].chapters@[j]).title@) by {
        assert(volume_converted(opencc, converts, old.volumes@[v], new.volumes@[v]));
        assert(chapter_converted(
            opencc,
            converts,
            old.volumes@[v].chapters@[j],
            new.volumes@[v].chapters@[j],
        ));
        converted_string_is_tidy(
            opencc,
            converts,
            true,
            old.volumes@[v].chapters@[j].title,
            new.volumes@[v].chapters@[j].title,
        );
    }
    assert forall|v: int, j: int, k: int|
        0 <= v < new.volumes@.len() && 0 <= j < new.volumes@[v].chapters@.len() && 0 <= k
            < new.volumes@[v].chapters@[j].contents@.len() implies (
        #[trigger] new.volumes@[v].chapters@[j].contents@[k] matches Content::Text(t)
            ==> has_no_edge_whitespace(t@)) by {
        assert(volume_converted(opencc, converts, old.volumes@[v], new.volumes@[v]));
        let oc = old.volumes@[v].chapters@[j];
        let nc = new.volumes@[v].chapters@[j];
        assert(chapter_converted(opencc, converts, oc, nc));
        assert(content_converted(opencc, converts, oc.contents@[k], nc.contents@[k]));
        if let Content::Text(t) = nc.contents@[k] {
            let ot = oc.contents@[k]->Text_0;
            converted_string_is_tidy(opencc, converts, false, ot, t);
        }
    }
}

} // verus!
