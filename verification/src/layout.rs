use vstd::prelude::*;

use crate::text::same_text;

verus! {

/// What a path names on disk.
#[derive(Clone, Copy, PartialEq, Eq, Structural, Debug)]
pub enum PathKind {
    /// Nothing.
    Missing,
    File,
    Dir,
    /// Something that is neither a file nor a directory.
    Other,
}

/// A path that names nothing.
#[derive(Clone, Copy, PartialEq, Eq, Structural, Debug)]
pub struct PathMissing;

/// A file with the extension `wanted`: `kind` is what the path names and
/// `extension` its extension, if it has one.
pub fn is_some_file(kind: PathKind, extension: Option<&str>, wanted: &str) -> (r: Result<
    bool,
    PathMissing,
>)
    ensures
        kind == PathKind::Missing ==> r == Err::<bool, PathMissing>(PathMissing),
        kind != PathKind::Missing ==> r == Ok::<bool, PathMissing>(
            kind == PathKind::File && (extension matches Some(e) && e@ == wanted@),
        ),
{
    if kind == PathKind::Missing {
        return Err(PathMissing);
    }
    if kind != PathKind::File {
        return Ok(false);
    }
    match extension {
        Some(e) => Ok(same_text(e, wanted)),
        None => Ok(false),
    }
}

/// A markdown file: a file with the extension `md`.
pub fn is_markdown_file(kind: PathKind, extension: Option<&str>) -> (r: Result<bool, PathMissing>)
    ensures
        kind == PathKind::Missing ==> r == Err::<bool, PathMissing>(PathMissing),
        kind != PathKind::Missing ==> r == Ok::<bool, PathMissing>(
            kind == PathKind::File && (extension matches Some(e) && e@ == "md"@),
        ),
{
    is_some_file(kind, extension, "md")
}

/// An EPUB file: a file with the extension `epub`.
pub fn is_epub_file(kind: PathKind, extension: Option<&str>) -> (r: Result<bool, PathMissing>)
    ensures
        kind == PathKind::Missing ==> r == Err::<bool, PathMissing>(PathMissing),
        kind != PathKind::Missing ==> r == Ok::<bool, PathMissing>(
            kind == PathKind::File && (extension matches Some(e) && e@ == "epub"@),
        ),
{
    is_some_file(kind, extension, "epub")
}

/// A directory whose contents pass `inside`, where `kind` is what the path
/// names.
pub open spec fn dir_with(kind: PathKind, inside: bool) -> Result<bool, PathMissing> {
    match kind {
        PathKind::Missing => Err(PathMissing),
        PathKind::Dir => Ok(inside),
        _ => Ok(false),
    }
}

fn check_dir(kind: PathKind, inside: bool) -> (r: Result<bool, PathMissing>)
    ensures
        r == dir_with(kind, inside),
{
    match kind {
        PathKind::Missing => Err(PathMissing),
        PathKind::Dir => Ok(inside),
        _ => Ok(false),
    }
}

/// A directory holding a markdown file named after it
/// (`markdown_file_exists`).
pub fn is_markdown_dir(kind: PathKind, markdown_file_exists: bool) -> (r: Result<bool, PathMissing>)
    ensures
        r == dir_with(kind, markdown_file_exists),
{
    check_dir(kind, markdown_file_exists)
}

/// A directory of an mdBook: it holds a `src` directory and a `book.toml`
/// file.
pub fn is_mdbook_dir(kind: PathKind, src_is_dir: bool, book_toml_is_file: bool) -> (r: Result<
    bool,
    PathMissing,
>)
    ensures
        r == dir_with(kind, src_is_dir && book_toml_is_file),
{
    check_dir(kind, src_is_dir && book_toml_is_file)
}

/// A directory of a pandoc markdown file: it holds a markdown file named
/// after it (`markdown_is_file`).
pub fn is_pandoc_dir(kind: PathKind, markdown_is_file: bool) -> (r: Result<bool, PathMissing>)
    ensures
        r == dir_with(kind, markdown_is_file),
{
    check_dir(kind, markdown_is_file)
}

/// A directory of an unpacked EPUB: it holds the `EPUB` and `META-INF`
/// directories and a `mimetype` file.
pub fn is_epub_dir(
    kind: PathKind,
    epub_is_dir: bool,
    meta_inf_is_dir: bool,
    mimetype_is_file: bool,
) -> (r: Result<bool, PathMissing>)
    ensures
        r == dir_with(kind, epub_is_dir && meta_inf_is_dir && mimetype_is_file),
{
    check_dir(kind, epub_is_dir && meta_inf_is_dir && mimetype_is_file)
}

} // verus!
