use vstd::prelude::*;

verus! {

/// A `char -> char` hash map: the lookup tables of the text conversion.
#[verifier::external_body]
pub struct CharMap {
    map: hashbrown::HashMap<char, char>,
}

/// The entries of a `CharMap`.
pub uninterp spec fn char_map_contents(m: CharMap) -> Map<char, char>;

impl CharMap {
    /// `hashbrown::HashMap::new`: an empty map.
    #[verifier::external_body]
    pub(crate) fn new() -> (r: CharMap)
        ensures
            char_map_contents(r) =~= Map::empty(),
    {
        CharMap { map: hashbrown::HashMap::new() }
    }

    /// `hashbrown::HashMap::insert`: maps `k` to `v`, replacing an earlier value of `k`.
    #[verifier::external_body]
    pub(crate) fn insert(&mut self, k: char, v: char)
        ensures
            char_map_contents(*final(self)) == char_map_contents(*old(self)).insert(k, v),
    {
        self.map.insert(k, v);
    }

    /// `hashbrown::HashMap::get`: the value of `k`, if `k` has one.
    #[verifier::external_body]
    pub(crate) fn get(&self, k: char) -> (r: Option<char>)
        ensures
            r == (if char_map_contents(*self).dom().contains(k) {
                Some(char_map_contents(*self)[k])
            } else {
                None
            }),
    {
        self.map.get(&k).copied()
    }
}

/// A hash set of characters.
#[verifier::external_body]
pub struct CharSet {
    set: hashbrown::HashSet<char>,
}

/// The elements of a `CharSet`.
pub uninterp spec fn char_set_contents(s: CharSet) -> Set<char>;

impl CharSet {
    /// `hashbrown::HashSet::new`: an empty set.
    #[verifier::external_body]
    pub fn new() -> (s: CharSet)
        ensures
            char_set_contents(s) == Set::<char>::empty(),
    {
        CharSet { set: hashbrown::HashSet::new() }
    }

    /// `hashbrown::HashSet::insert`: adds `c`.
    #[verifier::external_body]
    pub(crate) fn insert(&mut self, c: char)
        ensures
            char_set_contents(*final(self)) == char_set_contents(*old(self)).insert(c),
    {
        self.set.insert(c);
    }

    /// `hashbrown::HashSet::contains`.
    #[verifier::external_body]
    pub(crate) fn contains(&self, c: char) -> (r: bool)
        ensures
            r == char_set_contents(*self).contains(c),
    {
        self.set.contains(&c)
    }
}

/// The map built by inserting the pairs in order; a later pair wins over an
/// earlier one with the same key.
pub open spec fn map_of_pairs(pairs: Seq<(char, char)>) -> Map<char, char>
    decreases pairs.len(),
{
    if pairs.len() == 0 {
        Map::empty()
    } else {
        map_of_pairs(pairs.drop_last()).insert(pairs.last().0, pairs.last().1)
    }
}

/// Each value of the map built from `pairs` is the second half of a pair.
pub proof fn map_of_pairs_values(pairs: Seq<(char, char)>, k: char)
    requires
        map_of_pairs(pairs).dom().contains(k),
    ensures
        exists|i: int| 0 <= i < pairs.len() && pairs[i].1 == map_of_pairs(pairs)[k],
    decreases pairs.len(),
{
    if pairs.len() > 0 && k != pairs.last().0 {
        map_of_pairs_values(pairs.drop_last(), k);
        let i = choose|i: int|
            0 <= i < pairs.drop_last().len() && pairs.drop_last()[i].1 == map_of_pairs(
                pairs.drop_last(),
            )[k];
        assert(pairs[i] == pairs.drop_last()[i]);
    } else {
        assert(pairs[pairs.len() - 1].1 == map_of_pairs(pairs)[k]);
    }
}

/// Full-width forms to their ASCII forms, variant punctuation to the
/// punctuation used in Chinese text, and ASCII `?!,;()` to full-width.
pub open spec fn convert_pairs() -> Seq<(char, char)> {
    seq![
        ('＂', '"'), ('＃', '#'), ('＄', '$'), ('％', '%'), ('＆', '&'), ('＇', '\''), ('＊', '*'),
        ('＋', '+'), ('．', '.'), ('／', '/'), ('０', '0'), ('１', '1'), ('２', '2'), ('３', '3'),
        ('４', '4'), ('５', '5'), ('６', '6'), ('７', '7'), ('８', '8'), ('９', '9'), ('＜', '<'),
        ('＝', '='), ('＞', '>'), ('＠', '@'), ('Ａ', 'A'), ('Ｂ', 'B'), ('Ｃ', 'C'), ('Ｄ', 'D'),
        ('Ｅ', 'E'), ('Ｆ', 'F'), ('Ｇ', 'G'), ('Ｈ', 'H'), ('Ｉ', 'I'), ('Ｊ', 'J'), ('Ｋ', 'K'),
        ('Ｌ', 'L'), ('Ｍ', 'M'), ('Ｎ', 'N'), ('Ｏ', 'O'), ('Ｐ', 'P'), ('Ｑ', 'Q'), ('Ｒ', 'R'),
        ('Ｓ', 'S'), ('Ｔ', 'T'), ('Ｕ', 'U'), ('Ｖ', 'V'), ('Ｗ', 'W'), ('Ｘ', 'X'), ('Ｙ', 'Y'),
        ('Ｚ', 'Z'), ('＼', '\\'), ('＾', '^'), ('｀', '`'), ('ａ', 'a'), ('ｂ', 'b'), ('ｃ', 'c'),
        ('ｄ', 'd'), ('ｅ', 'e'), ('ｆ', 'f'), ('ｇ', 'g'), ('ｈ', 'h'), ('ｉ', 'i'), ('ｊ', 'j'),
        ('ｋ', 'k'), ('ｌ', 'l'), ('ｍ', 'm'), ('ｎ', 'n'), ('ｏ', 'o'), ('ｐ', 'p'), ('ｑ', 'q'),
        ('ｒ', 'r'), ('ｓ', 's'), ('ｔ', 't'), ('ｕ', 'u'), ('ｖ', 'v'), ('ｗ', 'w'), ('ｘ', 'x'),
        ('ｙ', 'y'), ('ｚ', 'z'), ('｛', '{'), ('｜', '|'), ('｝', '}'), ('｡', '。'), ('｢', '「'),
        ('｣', '」'), ('､', '、'), ('･', '·'), ('•', '·'), ('─', '—'), ('―', '—'), ('∶', '：'),
        ('‧', '·'), ('・', '·'), ('﹑', '、'), ('〜', '～'), ('︰', '：'), ('?', '？'), ('!', '！'),
        (',', '，'), (';', '；'), ('(', '（'), (')', '）'),
    ]
}

/// Traditional variants that the OpenCC dictionaries leave unconverted.
pub open spec fn t2s_pairs() -> Seq<(char, char)> {
    seq![
        ('妳', '你'), ('姊', '姐'), ('擡', '抬'), ('牠', '它'), ('緖', '绪'), ('揹', '背'),
    ]
}

pub open spec fn convert_table() -> Map<char, char> {
    map_of_pairs(convert_pairs())
}

pub open spec fn t2s_table() -> Map<char, char> {
    map_of_pairs(t2s_pairs())
}

fn convert_pair_list() -> (v: Vec<(char, char)>)
    ensures
        v@ == convert_pairs(),
{
    let v = vec![
        ('＂', '"'), ('＃', '#'), ('＄', '$'), ('％', '%'), ('＆', '&'), ('＇', '\''), ('＊', '*'),
        ('＋', '+'), ('．', '.'), ('／', '/'), ('０', '0'), ('１', '1'), ('２', '2'), ('３', '3'),
        ('４', '4'), ('５', '5'), ('６', '6'), ('７', '7'), ('８', '8'), ('９', '9'), ('＜', '<'),
        ('＝', '='), ('＞', '>'), ('＠', '@'), ('Ａ', 'A'), ('Ｂ', 'B'), ('Ｃ', 'C'), ('Ｄ', 'D'),
        ('Ｅ', 'E'), ('Ｆ', 'F'), ('Ｇ', 'G'), ('Ｈ', 'H'), ('Ｉ', 'I'), ('Ｊ', 'J'), ('Ｋ', 'K'),
        ('Ｌ', 'L'), ('Ｍ', 'M'), ('Ｎ', 'N'), ('Ｏ', 'O'), ('Ｐ', 'P'), ('Ｑ', 'Q'), ('Ｒ', 'R'),
        ('Ｓ', 'S'), ('Ｔ', 'T'), ('Ｕ', 'U'), ('Ｖ', 'V'), ('Ｗ', 'W'), ('Ｘ', 'X'), ('Ｙ', 'Y'),
        ('Ｚ', 'Z'), ('＼', '\\'), ('＾', '^'), ('｀', '`'), ('ａ', 'a'), ('ｂ', 'b'), ('ｃ', 'c'),
        ('ｄ', 'd'), ('ｅ', 'e'), ('ｆ', 'f'), ('ｇ', 'g'), ('ｈ', 'h'), ('ｉ', 'i'), ('ｊ', 'j'),
        ('ｋ', 'k'), ('ｌ', 'l'), ('ｍ', 'm'), ('ｎ', 'n'), ('ｏ', 'o'), ('ｐ', 'p'), ('ｑ', 'q'),
        ('ｒ', 'r'), ('ｓ', 's'), ('ｔ', 't'), ('ｕ', 'u'), ('ｖ', 'v'), ('ｗ', 'w'), ('ｘ', 'x'),
        ('ｙ', 'y'), ('ｚ', 'z'), ('｛', '{'), ('｜', '|'), ('｝', '}'), ('｡', '。'), ('｢', '「'),
        ('｣', '」'), ('､', '、'), ('･', '·'), ('•', '·'), ('─', '—'), ('―', '—'), ('∶', '：'),
        ('‧', '·'), ('・', '·'), ('﹑', '、'), ('〜', '～'), ('︰', '：'), ('?', '？'), ('!', '！'),
        (',', '，'), (';', '；'), ('(', '（'), (')', '）'),
    ];
    assert(v@ =~= convert_pairs());
    v
}

fn t2s_pair_list() -> (v: Vec<(char, char)>)
    ensures
        v@ == t2s_pairs(),
{
    let v = vec![
        ('妳', '你'), ('姊', '姐'), ('擡', '抬'), ('牠', '它'), ('緖', '绪'), ('揹', '背'),
    ];
    assert(v@ =~= t2s_pairs());
    v
}

fn map_from_pairs(pairs: &Vec<(char, char)>) -> (m: CharMap)
    ensures
        char_map_contents(m) == map_of_pairs(pairs@),
{
    let mut m = CharMap::new();
    let mut i: usize = 0;
    while i < pairs.len()
        invariant
            i <= pairs.len(),
            char_map_contents(m) == map_of_pairs(pairs@.take(i as int)),
        decreases pairs.len() - i,
    {
        let (k, v) = pairs[i];
        m.insert(k, v);
        i += 1;
        assert(pairs@.take(i as int).drop_last() =~= pairs@.take(i - 1));
    }
    assert(pairs@.take(pairs.len() as int) =~= pairs@);
    m
}

/// The table of the custom conversion.
pub fn convert_map() -> (m: CharMap)
    ensures
        char_map_contents(m) == convert_table(),
{
    map_from_pairs(&convert_pair_list())
}

/// The table applied after the custom conversion when converting to
/// simplified Chinese.
pub fn convert_t2s_map() -> (m: CharMap)
    ensures
        char_map_contents(m) == t2s_table(),
{
    map_from_pairs(&t2s_pair_list())
}

} // verus!
