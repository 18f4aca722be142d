use novel_cli::layout::{
    is_epub_dir, is_epub_file, is_markdown_dir, is_markdown_file, is_mdbook_dir, is_pandoc_dir,
    is_some_file, PathKind, PathMissing,
};

#[test]
fn file_kinds() {
    assert_eq!(is_markdown_file(PathKind::File, Some("md")), Ok(true));
    assert_eq!(is_markdown_file(PathKind::File, Some("txt")), Ok(false));
    assert_eq!(is_markdown_file(PathKind::File, None), Ok(false));
    assert_eq!(is_markdown_file(PathKind::Dir, Some("md")), Ok(false));
    assert_eq!(is_markdown_file(PathKind::Missing, Some("md")), Err(PathMissing));
    assert_eq!(is_epub_file(PathKind::File, Some("epub")), Ok(true));
    assert_eq!(is_some_file(PathKind::Other, Some("epub"), "epub"), Ok(false));
}

#[test]
fn directory_kinds() {
    assert_eq!(is_markdown_dir(PathKind::Dir, true), Ok(true));
    assert_eq!(is_markdown_dir(PathKind::File, true), Ok(false));
    assert_eq!(is_markdown_dir(PathKind::Missing, true), Err(PathMissing));
    assert_eq!(is_mdbook_dir(PathKind::Dir, true, true), Ok(true));
    assert_eq!(is_mdbook_dir(PathKind::Dir, true, false), Ok(false));
    assert_eq!(is_pandoc_dir(PathKind::Dir, false), Ok(false));
    assert_eq!(is_epub_dir(PathKind::Dir, true, true, true), Ok(true));
    assert_eq!(is_epub_dir(PathKind::Dir, true, false, true), Ok(false));
    assert_eq!(is_epub_dir(PathKind::Other, true, true, true), Ok(false));
}
