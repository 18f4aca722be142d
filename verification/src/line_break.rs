use vstd::prelude::*;

use vstd::utf8::encode_utf8;

use crate::text::chars_of;

verus! {

/// `needle` occurs in `haystack` at `i`.
pub open spec fn occurs_at(haystack: Seq<u8>, needle: Seq<u8>, i: int) -> bool {
    0 <= i && i + needle.len() <= haystack.len() && haystack.subrange(i, i + needle.len()) == needle
}

/// `memchr::memmem::find`: the index of the first occurrence of `needle` in
/// `haystack`, or `None` where it does not occur.
#[verifier::external_body]
fn find(haystack: &[u8], needle: &[u8]) -> (r: Option<usize>)
    ensures
        r matches Some(i) ==> occurs_at(haystack@, needle@, i as int) && forall|j: int|
            0 <= j < i ==> !occurs_at(haystack@, needle@, j),
        r is None ==> forall|j: int| !occurs_at(haystack@, needle@, j),
{
    memchr::memmem::find(haystack, needle)
}

/// The bytes of a Windows line break, `\r\n`.
pub open spec fn crlf() -> Seq<u8> {
    seq![13u8, 10u8]
}

/// A line break that does not suit the platform.
#[derive(Clone, Copy, PartialEq, Eq, Structural, Debug)]
pub enum LineBreakError {
    /// A `\r\n` in a text for Unix, where line breaks are `\n`.
    WindowsLineBreakOnUnix,
    /// A `\n` not preceded by `\r` in a text for Windows.
    UnixLineBreakOnWindows,
}

/// Checks that `text` uses Unix line breaks: it fails exactly when the UTF-8
/// bytes of `text` hold `\r\n`.
pub fn verify_line_break(text: &str) -> (r: Result<(), LineBreakError>)
    ensures
        r is Err <==> exists|i: int| occurs_at(encode_utf8(text@), crlf(), i),
        r is Err ==> r == Err::<(), LineBreakError>(LineBreakError::WindowsLineBreakOnUnix),
{
    let needle: [u8; 2] = [13u8, 10u8];
    assert(needle@ =~= crlf());
    match find(text.as_bytes(), needle.as_slice()) {
        Some(_) => Err(LineBreakError::WindowsLineBreakOnUnix),
        None => Ok(()),
    }
}

/// A `\n` that is not preceded by `\r` stands at `i + 1` in `s`.
pub open spec fn bare_line_feed_after(s: Seq<char>, i: int) -> bool {
    0 <= i && i + 1 < s.len() && s[i + 1] == '\n' && s[i] != '\r'
}

/// Checks that `text` uses Windows line breaks: it fails exactly when a `\n`
/// follows a character other than `\r`.
pub fn verify_windows_line_break(text: &str) -> (r: Result<(), LineBreakError>)
    ensures
        r is Err <==> exists|i: int| bare_line_feed_after(text@, i),
        r is Err ==> r == Err::<(), LineBreakError>(LineBreakError::UnixLineBreakOnWindows),
{
    let s = chars_of(text);
    let mut i: usize = 0;
    while s.len() > 0 && i < s.len() - 1
        invariant
            s@ == text@,
            forall|j: int| 0 <= j < i ==> !bare_line_feed_after(text@, j),
        decreases s.len() - i,
    {
        if s[i + 1] == '\n' && s[i] != '\r' {
            assert(bare_line_feed_after(text@, i as int));
            return Err(LineBreakError::UnixLineBreakOnWindows);
        }
        i += 1;
    }
    Ok(())
}

} // verus!
