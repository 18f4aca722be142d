use vstd::prelude::*;

use vstd::utf8::encode_utf8;

use crate::text::push_str;

verus! {

pub open spec fn digit_char(d: int) -> char {
    seq!['0', '1', '2', '3', '4', '5', '6', '7', '8', '9'][d]
}

/// The decimal digits of `n`, without leading zeros.
pub open spec fn decimal(n: nat) -> Seq<char>
    decreases n,
{
    if n < 10 {
        seq![digit_char(n as int)]
    } else {
        decimal(n / 10).push(digit_char((n % 10) as int))
    }
}

/// The decimal digits of `n`, padded with zeros to at least three digits.
pub open spec fn padded_decimal(n: nat) -> Seq<char> {
    if n < 10 {
        seq!['0', '0'] + decimal(n)
    } else if n < 100 {
        seq!['0'] + decimal(n)
    } else {
        decimal(n)
    }
}

fn digit(d: u32) -> (c: char)
    requires
        d < 10,
    ensures
        c == digit_char(d as int),
{
    if d == 0 {
        '0'
    } else if d == 1 {
        '1'
    } else if d == 2 {
        '2'
    } else if d == 3 {
        '3'
    } else if d == 4 {
        '4'
    } else if d == 5 {
        '5'
    } else if d == 6 {
        '6'
    } else if d == 7 {
        '7'
    } else if d == 8 {
        '8'
    } else {
        '9'
    }
}

/// Appends the decimal digits of `num` to `s`.
pub fn push_decimal(s: &mut String, num: u32)
    ensures
        final(s)@ == old(s)@ + decimal(num as nat),
{
    // the digits of `num`, least significant first
    let mut digits: Vec<char> = Vec::new();
    let mut n = num;
    let ghost mut rest: Seq<char> = Seq::empty();
    while n >= 10
        invariant
            decimal(num as nat) == decimal(n as nat) + rest,
            digits@ == rest.reverse(),
        decreases n,
    {
        let d = digit(n % 10);
        proof {
            assert(decimal(n as nat) == decimal((n / 10) as nat).push(d));
            assert(decimal((n / 10) as nat) + seq![d] + rest =~= decimal((n / 10) as nat) + (
            seq![d] + rest));
            assert((seq![d] + rest).reverse() =~= rest.reverse().push(d));
            rest = seq![d] + rest;
        }
        digits.push(d);
        n = n / 10;
    }
    let d = digit(n);
    digits.push(d);
    proof {
        assert(decimal(n as nat) == seq![d]);
        assert((seq![d] + rest).reverse() =~= rest.reverse().push(d));
        rest = seq![d] + rest;
    }
    let mut i: usize = digits.len();
    while i > 0
        invariant
            i <= digits.len(),
            digits@ == rest.reverse(),
            rest == decimal(num as nat),
            s@ == old(s)@ + rest.take(digits.len() - i),
        decreases i,
    {
        i -= 1;
        s.push(digits[i]);
        assert(rest.take(digits.len() - i) =~= rest.take(digits.len() - i - 1).push(
            digits@[i as int],
        ));
    }
    assert(rest.take(digits.len() as int) =~= rest);
}

/// `num` in decimal.
pub fn decimal_string(num: u32) -> (r: String)
    ensures
        r@ == decimal(num as nat),
{
    let mut r = String::new();
    push_decimal(&mut r, num);
    assert(r@ =~= decimal(num as nat));
    r
}

/// `num` in decimal, padded with zeros to three digits.
pub fn num_to_str(num: u16) -> (r: String)
    ensures
        r@ == padded_decimal(num as nat),
{
    let mut r = String::new();
    if num < 10 {
        r.push('0');
        r.push('0');
    } else if num < 100 {
        r.push('0');
    }
    push_decimal(&mut r, num as u32);
    assert(r@ =~= padded_decimal(num as nat));
    r
}

proof fn decimal_shape(n: nat)
    ensures
        decimal(n).len() >= 1,
        n >= 10 <==> decimal(n).len() >= 2,
        n >= 100 ==> decimal(n).len() >= 3,
        n >= 1 ==> decimal(n)[0] != '0',
        decimal(n).last() == digit_char((n % 10) as int),
        n >= 10 ==> decimal(n).drop_last() == decimal(n / 10),
    decreases n,
{
    if n >= 10 {
        decimal_shape(n / 10);
        assert(decimal(n)[0] == decimal(n / 10)[0]);
        assert(decimal(n).drop_last() =~= decimal(n / 10));
    }
}

proof fn digit_char_injective(a: int, b: int)
    requires
        0 <= a < 10,
        0 <= b < 10,
        digit_char(a) == digit_char(b),
    ensures
        a == b,
{
}

/// Different numbers have different decimal digits.
pub proof fn decimal_injective(n: nat, m: nat)
    requires
        decimal(n) == decimal(m),
    ensures
        n == m,
    decreases n,
{
    decimal_shape(n);
    decimal_shape(m);
    if n < 10 && m < 10 {
        digit_char_injective(n as int, m as int);
    } else if n >= 10 && m >= 10 {
        decimal_injective(n / 10, m / 10);
        digit_char_injective((n % 10) as int, (m % 10) as int);
    }
}

/// Different numbers get different names: the padded digits of two numbers
/// are equal only where the numbers are, and always hold at least three
/// digits. So the images of a novel, numbered in order, never share a file.
pub proof fn padded_decimal_injective(n: nat, m: nat)
    requires
        padded_decimal(n) == padded_decimal(m),
    ensures
        n == m,
        padded_decimal(n).len() >= 3,
{
    decimal_shape(n);
    decimal_shape(m);
    let p = padded_decimal(n);
    if n < 10 {
        assert(p[0] == '0' && p[1] == '0');
        if m >= 100 {
            assert(padded_decimal(m)[0] != '0');
        } else if m >= 10 {
            assert(padded_decimal(m)[1] == decimal(m)[0]);
        } else {
            assert(decimal(n) =~= p.subrange(2, 3));
            assert(decimal(m) =~= p.subrange(2, 3));
            decimal_injective(n, m);
        }
    } else if n < 100 {
        assert(p[0] == '0' && p[1] == decimal(n)[0]);
        if m >= 100 {
            assert(padded_decimal(m)[0] != '0');
        } else if m < 10 {
            assert(padded_decimal(m)[1] == '0');
        } else {
            assert(decimal(n) =~= p.subrange(1, p.len() as int));
            assert(decimal(m) =~= p.subrange(1, p.len() as int));
            decimal_injective(n, m);
        }
    } else {
        assert(p[0] != '0');
        if m < 100 {
            assert(padded_decimal(m)[0] == '0');
        } else {
            decimal_injective(n, m);
        }
    }
}

/// `c` is one of the ten decimal digits.
pub open spec fn is_digit_char(c: char) -> bool {
    '0' <= c && c <= '9'
}

/// The padded digits of a number are decimal digits only.
pub proof fn padded_decimal_digits(n: nat)
    ensures
        forall|k: int|
            0 <= k < padded_decimal(n).len() ==> is_digit_char(#[trigger] padded_decimal(n)[k]),
{
    decimal_digits(n);
}

proof fn decimal_digits(n: nat)
    ensures
        forall|k: int| 0 <= k < decimal(n).len() ==> is_digit_char(#[trigger] decimal(n)[k]),
    decreases n,
{
    if n >= 10 {
        decimal_digits(n / 10);
        assert forall|k: int| 0 <= k < decimal(n).len() implies is_digit_char(
            #[trigger] decimal(n)[k],
        ) by {
            if k < decimal(n / 10).len() {
                assert(decimal(n)[k] == decimal(n / 10)[k]);
            }
        }
    }
}

/// `a` comes before `b` in lexicographic order of their characters (for
/// ASCII text, the byte-wise order in which file names are sorted).
pub open spec fn text_less(a: Seq<char>, b: Seq<char>) -> bool {
    exists|i: int|
        0 <= i <= a.len() && i <= b.len() && a.take(i) == b.take(i) && ((i < a.len() && i
            < b.len() && (a[i] as u32) < (b[i] as u32)) || (i == a.len() && i < b.len()))
}

/// The padded digits of a number below 1000: its hundreds, tens and units.
proof fn padded_three(n: nat)
    requires
        n < 1000,
    ensures
        padded_decimal(n) == seq![
            digit_char((n / 100) as int),
            digit_char(((n / 10) % 10) as int),
            digit_char((n % 10) as int),
        ],
{
    if n < 10 {
        assert(padded_decimal(n) =~= seq!['0', '0', digit_char(n as int)]);
    } else if n < 100 {
        assert(decimal(n / 10) == seq![digit_char((n / 10) as int)]);
        assert(padded_decimal(n) =~= seq!['0', digit_char((n / 10) as int), digit_char((n % 10) as int)]);
    } else {
        let m = n / 10;
        assert(10 <= m < 100);
        assert(m / 10 == n / 100);
        assert(decimal(m / 10) == seq![digit_char((m / 10) as int)]);
        assert(decimal(m) =~= seq![digit_char((m / 10) as int), digit_char((m % 10) as int)]);
        assert(padded_decimal(n) =~= seq![
            digit_char((n / 100) as int),
            digit_char(((n / 10) % 10) as int),
            digit_char((n % 10) as int),
        ]);
    }
}

proof fn digit_char_order(d: int, e: int)
    requires
        0 <= d < e < 10,
    ensures
        (digit_char(d) as u32) < (digit_char(e) as u32),
{
}

/// Names numbered by `num_to_str` sort as their numbers do, up to 999: the
/// padded digits of two such numbers have three characters each, and the
/// smaller number's come first.
pub proof fn padded_decimal_sorts(a: nat, b: nat)
    requires
        a < b < 1000,
    ensures
        padded_decimal(a).len() == 3,
        padded_decimal(b).len() == 3,
        text_less(padded_decimal(a), padded_decimal(b)),
{
    padded_three(a);
    padded_three(b);
    let pa = padded_decimal(a);
    let pb = padded_decimal(b);
    if a / 100 < b / 100 {
        digit_char_order((a / 100) as int, (b / 100) as int);
        assert(pa.take(0) =~= pb.take(0));
    } else if (a / 10) % 10 < (b / 10) % 10 {
        assert(a / 100 == b / 100);
        digit_char_order(((a / 10) % 10) as int, ((b / 10) % 10) as int);
        assert(pa.take(1) =~= pb.take(1));
    } else {
        assert(a / 100 == b / 100);
        assert((a / 10) % 10 == (b / 10) % 10);
        assert(a % 10 < b % 10);
        digit_char_order((a % 10) as int, (b % 10) as int);
        assert(pa.take(2) =~= pb.take(2));
    }
}

/// Characters that `sanitize_filename` replaces wherever they occur.
pub open spec fn is_illegal_file_name_char(c: char) -> bool {
    ||| c == '/' ||| c == '?' ||| c == '<' ||| c == '>' ||| c == '\\'
    ||| c == ':' ||| c == '*' ||| c == '|' ||| c == '"'
    ||| (c as u32) <= 0x1F
    ||| 0x80 <= (c as u32) <= 0x9F
}

/// A file name without path separators, drive markers, or control characters.
pub open spec fn is_safe_file_name(s: Seq<char>) -> bool {
    forall|i: int| 0 <= i < s.len() ==> !is_illegal_file_name_char(#[trigger] s[i])
}

/// `c` in ASCII lower case.
pub open spec fn ascii_lower(c: char) -> char {
    if 'A' <= c <= 'Z' {
        ((c as u32) + 32) as char
    } else {
        c
    }
}

/// `stem` is, ignoring ASCII case, a device name reserved on Windows: `con`,
/// `prn`, `aux`, `nul`, or `com` or `lpt` followed by a digit.
pub open spec fn is_reserved_stem(stem: Seq<char>) -> bool {
    let l = stem.map_values(|c: char| ascii_lower(c));
    ||| l == seq!['c', 'o', 'n']
    ||| l == seq!['p', 'r', 'n']
    ||| l == seq!['a', 'u', 'x']
    ||| l == seq!['n', 'u', 'l']
    ||| (l.len() == 4 && l.take(3) == seq!['c', 'o', 'm'] && is_digit_char(l[3]))
    ||| (l.len() == 4 && l.take(3) == seq!['l', 'p', 't'] && is_digit_char(l[3]))
}

/// A file name that needs no change on any platform: it holds no illegal or
/// control character, is not made of dots only, takes at most 255 bytes in
/// UTF-8, does not end with a dot or a space, and the part before its first
/// dot is not a device name reserved on Windows.
pub open spec fn is_plain_file_name(s: Seq<char>) -> bool {
    &&& is_safe_file_name(s)
    &&& !(s.len() > 0 && forall|i: int| 0 <= i < s.len() ==> s[i] == '.')
    &&& encode_utf8(s).len() <= 255
    &&& (s.len() > 0 ==> s.last() != '.' && s.last() != ' ')
    &&& forall|k: int|
        0 <= k <= s.len() && (k == s.len() || s[k] == '.') && (forall|j: int|
            0 <= j < k ==> s[j] != '.') ==> !is_reserved_stem(#[trigger] s.take(k))
}

/// `name` with every character that `sanitize_filename` replaces wherever it
/// occurs (illegal and control characters) turned into a space.
pub open spec fn spaced_file_name(name: Seq<char>) -> Seq<char> {
    name.map_values(|c: char| if is_illegal_file_name_char(c) { ' ' } else { c })
}

/// A name with no illegal character is its own spaced name: so, by their
/// contracts, `to_novel_dir_name` keeps a plain name as it is.
pub proof fn spaced_safe_name(name: Seq<char>)
    requires
        is_safe_file_name(name),
    ensures
        spaced_file_name(name) == name,
{
    assert(spaced_file_name(name) =~= name);
}

/// `sanitize_filename::sanitize_with_options`, with the replacement `" "`
/// that this wrapper hands it. Its source first replaces each illegal or
/// control character by the replacement, then replaces a name made of dots
/// only, truncates a name longer than 255 bytes and, on Windows only, replaces
/// a reserved device name and trailing dots and spaces. So the result holds no
/// illegal or control character, and where the name after the first step
/// needs none of the later ones, the result is that name. Which name comes out
/// where a later step applies (it depends on the platform) is left unsaid.
#[verifier::external_body]
fn sanitize(name: &str) -> (r: String)
    ensures
        is_safe_file_name(r@),
        is_plain_file_name(spaced_file_name(name@)) ==> r@ == spaced_file_name(name@),
{
    let options = sanitize_filename::Options { replacement: " ", ..Default::default() };
    sanitize_filename::sanitize_with_options(name, options)
}

/// The place of the last dot among the first `n` characters of `name` that
/// is not its first character, or 0 where there is none.
pub open spec fn last_inner_dot(name: Seq<char>, n: int) -> int
    decreases n,
{
    if n <= 1 {
        0
    } else if name[n - 1] == '.' {
        n - 1
    } else {
        last_inner_dot(name, n - 1)
    }
}

/// The stem of the file name `name`: all of it before its extension, which
/// is what follows its last dot, where that dot is not the first character.
pub open spec fn file_stem(name: Seq<char>) -> Seq<char> {
    let dot = last_inner_dot(name, name.len() as int);
    if dot == 0 {
        name
    } else {
        name.take(dot)
    }
}

/// What `Path::with_extension` gives for the file name `name`: a name that
/// is empty, `.` or `..` (no file name) is kept as it is; otherwise its
/// extension is dropped, and `ext` added after a dot unless it is empty.
pub open spec fn path_with_extension(name: Seq<char>, ext: Seq<char>) -> Seq<char> {
    if name.len() == 0 || name == seq!['.'] || name == seq!['.', '.'] {
        name
    } else if ext.len() == 0 {
        file_stem(name)
    } else {
        file_stem(name) + seq!['.'] + ext
    }
}

/// A name without a dot has no extension: its stem is all of it.
proof fn dotless_stem(name: Seq<char>, n: int)
    requires
        0 <= n <= name.len(),
        !name.contains('.'),
    ensures
        last_inner_dot(name, n) == 0,
    decreases n,
{
    if n > 1 {
        assert(name[n - 1] != '.');
        dotless_stem(name, n - 1);
    }
}

/// An extension that `Path::with_extension` takes without a panic: its
/// documentation says that it panics on an extension that holds a path
/// separator (`/`, and `\` on Windows).
pub open spec fn is_plain_extension(ext: Seq<char>) -> bool {
    !ext.contains('/') && !ext.contains('\\')
}

/// `Path::with_extension` on a single file name, which holds no separator
/// or drive marker, so the result is the same on every platform. Its
/// documentation (with that of `PathBuf::set_extension`, `Path::file_name`
/// and `Path::extension`) says: where the path has no file name (empty, `.`
/// or `..`) nothing changes; otherwise the extension (what follows the last
/// dot of the name, unless that dot is its first character) is replaced by
/// `ext`, or added, and dropped with its dot where `ext` is empty. A file
/// name is valid UTF-8, so the lossy conversion back changes nothing.
#[verifier::external_body]
fn with_extension(name: &str, ext: &str) -> (r: String)
    requires
        is_safe_file_name(name@),
        is_plain_extension(ext@),
    ensures
        r@ == path_with_extension(name@, ext@),
{
    std::path::Path::new(name).with_extension(ext).to_string_lossy().into_owned()
}

/// The directory name of a novel: its name with the characters that cannot
/// stand in a file name replaced by spaces.
pub fn to_novel_dir_name(novel_name: &str) -> (r: String)
    ensures
        is_safe_file_name(r@),
        is_plain_file_name(spaced_file_name(novel_name@)) ==> r@ == spaced_file_name(novel_name@),
{
    sanitize(novel_name)
}

/// The name of a file of a novel, given the novel's sanitized name and an
/// extension without a path separator.
pub fn novel_file_name(sanitized_name: &str, ext: &str) -> (r: String)
    requires
        is_safe_file_name(sanitized_name@),
        is_plain_extension(ext@),
    ensures
        r@ == path_with_extension(sanitized_name@, ext@),
        sanitized_name@.len() > 0 && !sanitized_name@.contains('.') && ext@.len() > 0 ==> r@
            == sanitized_name@ + seq!['.'] + ext@,
{
    proof {
        if sanitized_name@.len() > 0 && !sanitized_name@.contains('.') {
            dotless_stem(sanitized_name@, sanitized_name@.len() as int);
            assert(sanitized_name@[0] != '.');
            assert(sanitized_name@ != seq!['.']);
            assert(sanitized_name@ != seq!['.', '.']);
        }
    }
    with_extension(sanitized_name, ext)
}

/// The markdown file name of a novel.
pub fn to_markdown_file_name(novel_name: &str) -> (r: String)
    ensures
        exists|s: Seq<char>| is_safe_file_name(s) && r@ == path_with_extension(s, "md"@),
        is_plain_file_name(spaced_file_name(novel_name@)) ==> r@ == path_with_extension(
            spaced_file_name(novel_name@),
            "md"@,
        ),
        is_plain_file_name(spaced_file_name(novel_name@)) && novel_name@.len() > 0
            && !spaced_file_name(novel_name@).contains('.') ==> r@ == spaced_file_name(novel_name@)
            + seq!['.', 'm', 'd'],
{
    proof {
        reveal_strlit("md");
    }
    let s = sanitize(novel_name);
    novel_file_name(s.as_str(), "md")
}

/// The EPUB file name of a novel.
pub fn to_epub_file_name(novel_name: &str) -> (r: String)
    ensures
        exists|s: Seq<char>| is_safe_file_name(s) && r@ == path_with_extension(s, "epub"@),
        is_plain_file_name(spaced_file_name(novel_name@)) ==> r@ == path_with_extension(
            spaced_file_name(novel_name@),
            "epub"@,
        ),
        is_plain_file_name(spaced_file_name(novel_name@)) && novel_name@.len() > 0
            && !spaced_file_name(novel_name@).contains('.') ==> r@ == spaced_file_name(novel_name@)
            + seq!['.', 'e', 'p', 'u', 'b'],
{
    proof {
        reveal_strlit("epub");
    }
    let s = sanitize(novel_name);
    novel_file_name(s.as_str(), "epub")
}

/// The markdown that shows the image at `path`.
pub fn image_markdown_str(path: &str) -> (r: String)
    ensures
        r@ == seq!['!', '[', ']', '('] + path@ + seq![')'],
{
    let mut r = String::new();
    r.push('!');
    r.push('[');
    r.push(']');
    r.push('(');
    push_str(&mut r, path);
    r.push(')');
    assert(r@ =~= seq!['!', '[', ']', '('] + path@ + seq![')']);
    r
}

} // verus!
