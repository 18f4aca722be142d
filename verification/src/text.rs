use vstd::prelude::*;

verus! {

/// The Unicode `White_Space` property.
pub open spec fn spec_is_whitespace(c: char) -> bool {
    let u = c as u32;
    ||| 0x09 <= u <= 0x0D
    ||| u == 0x20
    ||| u == 0x85
    ||| u == 0xA0
    ||| u == 0x1680
    ||| 0x2000 <= u <= 0x200A
    ||| u == 0x2028
    ||| u == 0x2029
    ||| u == 0x202F
    ||| u == 0x205F
    ||| u == 0x3000
}

/// The Unicode general category `Cc` (control characters).
pub open spec fn spec_is_control(c: char) -> bool {
    let u = c as u32;
    u <= 0x1F || 0x7F <= u <= 0x9F
}

pub open spec fn spec_is_ascii_digit(c: char) -> bool {
    '0' <= c <= '9'
}

pub open spec fn spec_is_ascii_alphanumeric(c: char) -> bool {
    ||| '0' <= c <= '9'
    ||| 'a' <= c <= 'z'
    ||| 'A' <= c <= 'Z'
}

/// `String::push` appends one character.
pub assume_specification[ String::push ](s: &mut String, ch: char)
    ensures
        final(s)@ == old(s)@.push(ch),
;

/// `char::is_whitespace` tests the Unicode `White_Space` property.
pub assume_specification[ char::is_whitespace ](c: char) -> (r: bool)
    ensures
        r == spec_is_whitespace(c),
;

/// `char::is_control` tests the general category `Cc`.
pub assume_specification[ char::is_control ](c: char) -> (r: bool)
    ensures
        r == spec_is_control(c),
;

/// `char::is_ascii_digit` tests for `'0'..='9'`.
pub assume_specification[ char::is_ascii_digit ](c: &char) -> (r: bool)
    ensures
        r == spec_is_ascii_digit(*c),
;

/// `char::is_ascii_alphanumeric` tests for `'0'..='9'`, `'a'..='z'` and `'A'..='Z'`.
pub assume_specification[ char::is_ascii_alphanumeric ](c: &char) -> (r: bool)
    ensures
        r == spec_is_ascii_alphanumeric(*c),
;

/// The characters of a string, in order.
pub fn chars_of(s: &str) -> (v: Vec<char>)
    ensures
        v@ == s@,
{
    let mut v: Vec<char> = Vec::new();
    for c in it: s.chars()
        invariant
            v@ == it.seq().take(it.index() as int),
            it.seq() == s@,
    {
        v.push(c);
    }
    v
}

/// A string made of the characters of `v`, in order.
pub fn string_of(v: &[char]) -> (s: String)
    ensures
        s@ == v@,
{
    let mut s = String::new();
    let mut i: usize = 0;
    while i < v.len()
        invariant
            i <= v.len(),
            s@ == v@.take(i as int),
        decreases v.len() - i,
    {
        s.push(v[i]);
        i += 1;
        assert(v@.take(i as int) == v@.take(i - 1).push(v@[i - 1]));
    }
    assert(v@.take(v.len() as int) == v@);
    s
}

/// Whether two texts are equal.
pub fn same_text(a: &str, b: &str) -> (r: bool)
    ensures
        r == (a@ == b@),
{
    let x = chars_of(a);
    let y = chars_of(b);
    if x.len() != y.len() {
        return false;
    }
    let mut i: usize = 0;
    while i < x.len()
        invariant
            i <= x.len() == y.len(),
            x@ == a@,
            y@ == b@,
            forall|j: int| 0 <= j < i ==> x@[j] == y@[j],
        decreases x.len() - i,
    {
        if x[i] != y[i] {
            return false;
        }
        i += 1;
    }
    assert(x@ =~= y@);
    true
}

/// Appends the characters of `t` to `s`.
pub fn push_str(s: &mut String, t: &str)
    ensures
        final(s)@ == old(s)@ + t@,
{
    for c in it: t.chars()
        invariant
            s@ == old(s)@ + it.seq().take(it.index() as int),
            it.seq() == t@,
    {
        s.push(c);
        assert(it.seq().take(it.index() + 1) =~= it.seq().take(it.index() as int).push(c));
    }
    assert(t@.take(t@.len() as int) =~= t@);
}

/// The texts of `list` joined with `sep` between them.
pub open spec fn join_spec(list: Seq<Seq<char>>, sep: Seq<char>) -> Seq<char>
    decreases list.len(),
{
    if list.len() == 0 {
        Seq::empty()
    } else if list.len() == 1 {
        list[0]
    } else {
        join_spec(list.drop_last(), sep) + sep + list.last()
    }
}

pub open spec fn views(list: Seq<String>) -> Seq<Seq<char>> {
    list.map_values(|s: String| s@)
}

/// The texts of `list` joined with `sep` between them.
pub fn join(list: &Vec<String>, sep: &str) -> (r: String)
    ensures
        r@ == join_spec(views(list@), sep@),
{
    let mut r = String::new();
    let mut i: usize = 0;
    while i < list.len()
        invariant
            i <= list.len(),
            r@ == join_spec(views(list@).take(i as int), sep@),
        decreases list.len() - i,
    {
        if i != 0 {
            push_str(&mut r, sep);
        }
        push_str(&mut r, list[i].as_str());
        i += 1;
        assert(views(list@).take(i as int).drop_last() =~= views(list@).take(i - 1));
    }
    assert(views(list@).take(list.len() as int) =~= views(list@));
    r
}

/// `s` without its leading whitespace.
pub open spec fn trim_start_spec(s: Seq<char>) -> Seq<char>
    decreases s.len(),
{
    if s.len() > 0 && spec_is_whitespace(s[0]) {
        trim_start_spec(s.drop_first())
    } else {
        s
    }
}

/// `s` without its trailing whitespace.
pub open spec fn trim_end_spec(s: Seq<char>) -> Seq<char>
    decreases s.len(),
{
    if s.len() > 0 && spec_is_whitespace(s.last()) {
        trim_end_spec(s.drop_last())
    } else {
        s
    }
}

/// `s` without leading and trailing whitespace, as `str::trim` gives it.
pub open spec fn trim_spec(s: Seq<char>) -> Seq<char> {
    trim_end_spec(trim_start_spec(s))
}

proof fn trim_start_is_suffix(s: Seq<char>)
    ensures
        exists|k: int| 0 <= k <= s.len() && trim_start_spec(s) == s.subrange(k, s.len() as int),
        trim_start_spec(s).len() > 0 ==> !spec_is_whitespace(trim_start_spec(s)[0]),
    decreases s.len(),
{
    if s.len() > 0 && spec_is_whitespace(s[0]) {
        trim_start_is_suffix(s.drop_first());
        let k = choose|k: int|
            0 <= k <= s.drop_first().len() && trim_start_spec(s.drop_first())
                == s.drop_first().subrange(k, s.drop_first().len() as int);
        assert(s.drop_first().subrange(k, s.drop_first().len() as int) =~= s.subrange(
            k + 1,
            s.len() as int,
        ));
    } else {
        assert(s.subrange(0, s.len() as int) =~= s);
    }
}

proof fn trim_end_is_prefix(s: Seq<char>)
    ensures
        exists|k: int| 0 <= k <= s.len() && trim_end_spec(s) == s.subrange(0, k),
        trim_end_spec(s).len() > 0 ==> !spec_is_whitespace(trim_end_spec(s).last()),
    decreases s.len(),
{
    if s.len() > 0 && spec_is_whitespace(s.last()) {
        trim_end_is_prefix(s.drop_last());
        let k = choose|k: int|
            0 <= k <= s.drop_last().len() && trim_end_spec(s.drop_last())
                == s.drop_last().subrange(0, k);
        assert(s.drop_last().subrange(0, k) =~= s.subrange(0, k));
    } else {
        assert(s.subrange(0, s.len() as int) =~= s);
    }
}

/// Trimming keeps a stretch of the text, and what it keeps neither starts nor
/// ends with whitespace.
pub proof fn trim_keeps_a_stretch(s: Seq<char>)
    ensures
        exists|a: int, b: int| 0 <= a <= b <= s.len() && trim_spec(s) == s.subrange(a, b),
        trim_spec(s).len() > 0 ==> !spec_is_whitespace(trim_spec(s)[0]) && !spec_is_whitespace(
            trim_spec(s).last(),
        ),
{
    trim_start_is_suffix(s);
    let t = trim_start_spec(s);
    let a = choose|k: int| 0 <= k <= s.len() && t == s.subrange(k, s.len() as int);
    trim_end_is_prefix(t);
    let b = choose|k: int| 0 <= k <= t.len() && trim_end_spec(t) == t.subrange(0, k);
    assert(t.subrange(0, b) =~= s.subrange(a, a + b));
    if trim_spec(s).len() > 0 {
        assert(trim_spec(s)[0] == t[0]);
    }
}

/// `s` without leading and trailing whitespace.
pub fn trim_chars(s: &Vec<char>) -> (r: Vec<char>)
    ensures
        r@ == trim_spec(s@),
{
    let n = s.len();
    let mut start: usize = 0;
    assert(s@.subrange(0, n as int) =~= s@);
    while start < n && s[start].is_whitespace()
        invariant
            start <= n == s.len(),
            trim_start_spec(s@) == trim_start_spec(s@.subrange(start as int, n as int)),
        decreases n - start,
    {
        assert(s@.subrange(start as int, n as int).drop_first() =~= s@.subrange(
            start + 1,
            n as int,
        ));
        start += 1;
    }
    let mut end: usize = n;
    assert(trim_start_spec(s@) == s@.subrange(start as int, n as int));
    while end > start && s[end - 1].is_whitespace()
        invariant
            start <= end <= n == s.len(),
            trim_spec(s@) == trim_end_spec(s@.subrange(start as int, end as int)),
        decreases end - start,
    {
        assert(s@.subrange(start as int, end as int).drop_last() =~= s@.subrange(
            start as int,
            end - 1,
        ));
        end -= 1;
    }
    let mut r: Vec<char> = Vec::new();
    let mut i: usize = start;
    while i < end
        invariant
            start <= i <= end <= n == s.len(),
            r@ == s@.subrange(start as int, i as int),
        decreases end - i,
    {
        r.push(s[i]);
        i += 1;
        assert(s@.subrange(start as int, i as int) =~= s@.subrange(start as int, i - 1).push(
            s@[i - 1],
        ));
    }
    r
}

/// The pieces of `s` between the occurrences of `sep`: `s` is the pieces
/// joined with `sep`, and no piece holds `sep`.
pub open spec fn is_split(s: Seq<char>, sep: char, pieces: Seq<Seq<char>>) -> bool {
    &&& pieces.len() >= 1
    &&& join_spec(pieces, seq![sep]) == s
    &&& forall|k: int| 0 <= k < pieces.len() ==> !(#[trigger] pieces[k]).contains(sep)
}

/// The pieces of `s` between the occurrences of `sep`, in order, as `split`
/// gives them: one more piece than there are separators, empty pieces
/// included.
pub fn split_on(s: &str, sep: char) -> (r: Vec<String>)
    ensures
        is_split(s@, sep, views(r@)),
{
    let chars = chars_of(s);
    let mut r: Vec<String> = Vec::new();
    let mut current = String::new();
    let mut i: usize = 0;
    while i < chars.len()
        invariant
            i <= chars@.len(),
            chars@ == s@,
            join_spec(views(r@).push(current@), seq![sep]) == s@.take(i as int),
            forall|k: int| 0 <= k < r@.len() ==> !(#[trigger] views(r@)[k]).contains(sep),
            !current@.contains(sep),
        decreases chars@.len() - i,
    {
        let c = chars[i];
        let ghost before = views(r@).push(current@);
        if c == sep {
            let ghost old_r = views(r@);
            r.push(current);
            current = String::new();
            proof {
                assert(views(r@) =~= old_r.push(before.last()));
                assert(views(r@).push(current@).drop_last() =~= views(r@));
                assert(views(r@).drop_last() =~= old_r);
                assert(s@.take(i + 1) =~= s@.take(i as int) + seq![sep]);
                assert(join_spec(views(r@).push(current@), seq![sep]) =~= join_spec(
                    views(r@),
                    seq![sep],
                ) + seq![sep] + Seq::<char>::empty());
                assert(join_spec(views(r@), seq![sep]) == join_spec(old_r.push(before.last()), seq![sep]));
                assert(old_r.push(before.last()) =~= before);
                assert forall|k: int| 0 <= k < r@.len() implies !(#[trigger] views(
                    r@,
                )[k]).contains(sep) by {
                    if k < old_r.len() {
                        assert(views(r@)[k] == old_r[k]);
                    }
                }
                assert(!current@.contains(sep));
            }
        } else {
            let ghost old_current = current@;
            current.push(c);
            proof {
                let after = views(r@).push(current@);
                assert(after.drop_last() =~= before.drop_last());
                assert(s@.take(i + 1) =~= s@.take(i as int).push(c));
                if before.len() == 1 {
                    assert(join_spec(after, seq![sep]) == current@);
                    assert(join_spec(before, seq![sep]) == old_current);
                } else {
                    assert(join_spec(after, seq![sep]) == join_spec(after.drop_last(), seq![sep])
                        + seq![sep] + current@);
                }
                assert(join_spec(after, seq![sep]) =~= s@.take(i + 1));
                assert forall|j: int| 0 <= j < current@.len() implies current@[j] != sep by {
                    if j < old_current.len() {
                        assert(current@[j] == old_current[j]);
                    }
                }
            }
        }
        i += 1;
    }
    let ghost old_r = views(r@);
    r.push(current);
    proof {
        assert(views(r@) =~= old_r.push(views(r@).last()));
        assert(s@.take(chars@.len() as int) =~= s@);
        assert forall|k: int| 0 <= k < r@.len() implies !(#[trigger] views(r@)[k]).contains(sep) by {
            if k < old_r.len() {
                assert(views(r@)[k] == old_r[k]);
            }
        }
    }
    r
}

/// `pattern` occurs in `s`.
pub open spec fn occurs_in(s: Seq<char>, pattern: Seq<char>) -> bool {
    exists|i: int| 0 <= i && i + pattern.len() <= s.len() && #[trigger] s.subrange(i, i + pattern.len()) == pattern
}

/// Whether `pattern` occurs in `s`.
pub fn contains_text(s: &str, pattern: &str) -> (r: bool)
    ensures
        r == occurs_in(s@, pattern@),
{
    let a = chars_of(s);
    let p = chars_of(pattern);
    if p.len() > a.len() {
        return false;
    }
    let n = a.len();
    let last = n - p.len();
    let mut i: usize = 0;
    while i <= last
        invariant
            n == a@.len(),
            a@ == s@,
            p@ == pattern@,
            last == a@.len() - p@.len(),
            i <= last + 1,
            forall|k: int| 0 <= k < i ==> #[trigger] s@.subrange(k, k + p@.len()) != pattern@,
        decreases last + 1 - i,
    {
        let mut j: usize = 0;
        let mut same = true;
        while j < p.len()
            invariant
                n == a@.len(),
                a@ == s@,
                p@ == pattern@,
                i <= last,
                last == a@.len() - p@.len(),
                j <= p@.len(),
                same == forall|m: int| 0 <= m < j ==> a@[i + m] == p@[m],
            decreases p@.len() - j,
        {
            assert(i + j < a@.len());
            if a[i + j] != p[j] {
                same = false;
            }
            j += 1;
        }
        if same {
            assert(s@.subrange(i as int, i + p@.len()) =~= pattern@);
            return true;
        }
        assert(s@.subrange(i as int, i + p@.len()) != pattern@) by {
            let m = choose|m: int| 0 <= m < p@.len() && a@[i + m] != p@[m];
            assert(s@.subrange(i as int, i + p@.len())[m] != pattern@[m]);
        }
        i += 1;
    }
    false
}

} // verus!
