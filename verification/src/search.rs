use vstd::prelude::*;

use crate::cli::{word_count_range, WordCountRange};
use crate::novel_info::NovelInfo;
use crate::text::{join, join_spec, same_text, views};

verus! {

/// The text of an optional string.
pub open spec fn opt_view(s: Option<String>) -> Option<Seq<char>> {
    match s {
        Some(t) => Some(t@),
        None => None,
    }
}

/// The texts of an optional list of strings.
pub open spec fn opt_views(list: Option<Vec<String>>) -> Option<Seq<Seq<char>>> {
    match list {
        Some(l) => Some(views(l@)),
        None => None,
    }
}

/// Two records of a novel say the same in every field.
pub open spec fn same_info_spec(a: NovelInfo, b: NovelInfo) -> bool {
    &&& a.id == b.id
    &&& a.name@ == b.name@
    &&& a.author_name@ == b.author_name@
    &&& opt_view(a.cover_url) == opt_view(b.cover_url)
    &&& opt_views(a.introduction) == opt_views(b.introduction)
    &&& a.word_count == b.word_count
    &&& a.is_vip == b.is_vip
    &&& a.is_finished == b.is_finished
    &&& opt_view(a.create_time) == opt_view(b.create_time)
    &&& opt_view(a.update_time) == opt_view(b.update_time)
    &&& opt_view(a.category) == opt_view(b.category)
    &&& opt_views(a.tags) == opt_views(b.tags)
    &&& a.category_ids == b.category_ids
    &&& a.tag_ids@ == b.tag_ids@
}

fn same_id(a: Option<u16>, b: Option<u16>) -> (r: bool)
    ensures
        r == (a == b),
{
    match (a, b) {
        (Some(x), Some(y)) => x == y,
        (None, None) => true,
        _ => false,
    }
}

fn same_ids(a: &Vec<Option<u16>>, b: &Vec<Option<u16>>) -> (r: bool)
    ensures
        r == (a@ == b@),
{
    if a.len() != b.len() {
        return false;
    }
    let mut i: usize = 0;
    while i < a.len()
        invariant
            i <= a@.len() == b@.len(),
            forall|k: int| 0 <= k < i ==> a@[k] == b@[k],
        decreases a@.len() - i,
    {
        if !same_id(a[i], b[i]) {
            return false;
        }
        i += 1;
    }
    assert(a@ =~= b@);
    true
}

fn same_opt_text(a: &Option<String>, b: &Option<String>) -> (r: bool)
    ensures
        r == (opt_view(*a) == opt_view(*b)),
{
    match (a, b) {
        (Some(x), Some(y)) => same_text(x.as_str(), y.as_str()),
        (None, None) => true,
        _ => false,
    }
}

fn same_list(a: &Vec<String>, b: &Vec<String>) -> (r: bool)
    ensures
        r == (views(a@) == views(b@)),
{
    if a.len() != b.len() {
        assert(views(a@).len() != views(b@).len());
        return false;
    }
    let mut i: usize = 0;
    while i < a.len()
        invariant
            i <= a@.len() == b@.len(),
            forall|k: int| 0 <= k < i ==> (#[trigger] a@[k])@ == b@[k]@,
        decreases a@.len() - i,
    {
        if !same_text(a[i].as_str(), b[i].as_str()) {
            assert(views(a@)[i as int] != views(b@)[i as int]);
            return false;
        }
        i += 1;
    }
    assert(views(a@) =~= views(b@));
    true
}

fn same_opt_list(a: &Option<Vec<String>>, b: &Option<Vec<String>>) -> (r: bool)
    ensures
        r == (opt_views(*a) == opt_views(*b)),
{
    match (a, b) {
        (Some(x), Some(y)) => same_list(x, y),
        (None, None) => true,
        _ => false,
    }
}

/// Whether two records of a novel say the same in every field.
pub fn same_info(a: &NovelInfo, b: &NovelInfo) -> (r: bool)
    ensures
        r == same_info_spec(*a, *b),
{
    a.id == b.id && same_text(a.name.as_str(), b.name.as_str()) && same_text(
        a.author_name.as_str(),
        b.author_name.as_str(),
    ) && same_opt_text(&a.cover_url, &b.cover_url) && same_opt_list(
        &a.introduction,
        &b.introduction,
    ) && a.word_count == b.word_count && a.is_vip == b.is_vip && a.is_finished == b.is_finished
        && same_opt_text(&a.create_time, &b.create_time) && same_opt_text(
        &a.update_time,
        &b.update_time,
    ) && same_opt_text(&a.category, &b.category) && same_opt_list(&a.tags, &b.tags) && same_id(
        a.category_ids.0,
        b.category_ids.0,
    ) && same_id(a.category_ids.1, b.category_ids.1) && same_ids(&a.tag_ids, &b.tag_ids)
}

/// `infos` holds a record that says the same as `info`.
pub open spec fn holds_info(infos: Seq<NovelInfo>, info: NovelInfo) -> bool {
    exists|i: int| 0 <= i < infos.len() && same_info_spec(#[trigger] infos[i], info)
}

fn contains_info(infos: &Vec<NovelInfo>, info: &NovelInfo) -> (r: bool)
    ensures
        r == holds_info(infos@, *info),
{
    let mut i: usize = 0;
    while i < infos.len()
        invariant
            i <= infos@.len(),
            forall|k: int| 0 <= k < i ==> !same_info_spec(#[trigger] infos@[k], *info),
        decreases infos@.len() - i,
    {
        if same_info(&infos[i], info) {
            return true;
        }
        i += 1;
    }
    false
}

/// `infos` followed by those of the first `n` of `found` that it, with what
/// came before them, does not hold yet.
pub open spec fn with_new_infos(infos: Seq<NovelInfo>, found: Seq<NovelInfo>, n: int) -> Seq<
    NovelInfo,
>
    decreases n,
{
    if n <= 0 {
        infos
    } else {
        let before = with_new_infos(infos, found, n - 1);
        if holds_info(before, found[n - 1]) {
            before
        } else {
            before.push(found[n - 1])
        }
    }
}

/// Adds to `infos` the records of a page of search results that it does not
/// hold yet, in order.
pub fn add_new_infos(infos: &mut Vec<NovelInfo>, found: Vec<NovelInfo>)
    ensures
        final(infos)@ == with_new_infos(old(infos)@, found@, found@.len() as int),
{
    let ghost all = found@;
    let mut rest = found;
    let total = rest.len();
    let mut n: usize = 0;
    while rest.len() > 0
        invariant
            all.len() == total,
            n + rest@.len() == all.len(),
            rest@ == all.subrange(n as int, all.len() as int),
            infos@ == with_new_infos(old(infos)@, all, n as int),
        decreases rest@.len(),
    {
        let info = rest.remove(0);
        assert(info == all[n as int]);
        if !contains_info(infos, &info) {
            infos.push(info);
        }
        n += 1;
        assert(rest@ =~= all.subrange(n as int, all.len() as int));
    }
}

/// No two records of `infos` say the same.
pub open spec fn no_repeated_info(infos: Seq<NovelInfo>) -> bool {
    forall|i: int, j: int|
        0 <= i < j < infos.len() ==> !same_info_spec(#[trigger] infos[i], #[trigger] infos[j])
}

/// Adding the new records of a page of results to records that hold no two
/// alike gives records that hold no two alike: the list of search results
/// never shows a novel twice.
pub proof fn adding_keeps_records_distinct(infos: Seq<NovelInfo>, found: Seq<NovelInfo>, n: int)
    requires
        no_repeated_info(infos),
        0 <= n <= found.len(),
    ensures
        no_repeated_info(with_new_infos(infos, found, n)),
    decreases n,
{
    if n > 0 {
        adding_keeps_records_distinct(infos, found, n - 1);
        let before = with_new_infos(infos, found, n - 1);
        if !holds_info(before, found[n - 1]) {
            let after = before.push(found[n - 1]);
            assert forall|i: int, j: int|
                0 <= i < j < after.len() implies !same_info_spec(
                #[trigger] after[i],
                #[trigger] after[j],
            ) by {
                if j == after.len() - 1 {
                    assert(after[i] == before[i]);
                    if same_info_spec(after[i], after[j]) {
                        assert(same_info_spec(before[i], found[n - 1]));
                    }
                } else {
                    assert(after[i] == before[i] && after[j] == before[j]);
                }
            }
        }
    }
}

/// Adding the new records of a page of results keeps the records held
/// before, in their order, at the front.
pub proof fn adding_keeps_earlier_records(infos: Seq<NovelInfo>, found: Seq<NovelInfo>, n: int)
    requires
        0 <= n <= found.len(),
    ensures
        with_new_infos(infos, found, n).len() >= infos.len(),
        with_new_infos(infos, found, n).subrange(0, infos.len() as int) == infos,
    decreases n,
{
    if n > 0 {
        adding_keeps_earlier_records(infos, found, n - 1);
        let before = with_new_infos(infos, found, n - 1);
        assert(before.push(found[n - 1]).subrange(0, infos.len() as int) =~= before.subrange(
            0,
            infos.len() as int,
        ));
    } else {
        assert(infos.subrange(0, infos.len() as int) =~= infos);
    }
}

/// The search goes on to the next page while fewer than `limit` novels are
/// found.
pub fn search_is_done(found: usize, limit: u8) -> (r: bool)
    ensures
        r == (found >= limit),
{
    found >= limit as usize
}

/// Keeps the first `limit` of the novels found.
pub fn keep_first(infos: &mut Vec<NovelInfo>, limit: u8)
    ensures
        final(infos)@ == if old(infos)@.len() <= limit {
            old(infos)@
        } else {
            old(infos)@.subrange(0, limit as int)
        },
{
    infos.truncate(limit as usize);
}

/// The position of the first of `names` that is `name`, if any is.
pub fn find_name(names: &Vec<String>, name: &str) -> (r: Option<usize>)
    ensures
        match r {
            Some(i) => i < names@.len() && names@[i as int]@ == name@ && forall|k: int|
                0 <= k < i ==> (#[trigger] names@[k])@ != name@,
            None => forall|k: int| 0 <= k < names@.len() ==> (#[trigger] names@[k])@ != name@,
        },
{
    let mut i: usize = 0;
    while i < names.len()
        invariant
            i <= names@.len(),
            forall|k: int| 0 <= k < i ==> (#[trigger] names@[k])@ != name@,
        decreases names@.len() - i,
    {
        if same_text(names[i].as_str(), name) {
            return Some(i);
        }
        i += 1;
    }
    None
}

/// The items of a list, joined with the Chinese enumeration comma "、".
pub fn vec_to_string(items: &Vec<String>) -> (r: String)
    ensures
        r@ == join_spec(views(items@), "、"@),
{
    join(items, "、")
}

/// A search that cannot be made.
pub enum SearchError {
    /// No category has the name asked for; all category names are given,
    /// joined with "、".
    CategoryNotFound { name: String, available: String },
    /// No tag has the name asked for; all tag names are given, joined with
    /// "、".
    TagNotFound { name: String, available: String },
}

/// Each of the first `n` of `wanted` is one of `names`.
pub open spec fn all_found(names: Seq<String>, wanted: Seq<String>, n: int) -> bool {
    forall|k: int| 0 <= k < n ==> is_one_of(names, (#[trigger] wanted[k])@)
}

/// `name` is one of `names`.
pub open spec fn is_one_of(names: Seq<String>, name: Seq<char>) -> bool {
    exists|i: int| 0 <= i < names.len() && (#[trigger] names[i])@ == name
}

/// The positions in `names` of the tags named by `wanted`, in order; the
/// first name that no tag has is the error.
pub fn to_tags(names: &Vec<String>, wanted: &Vec<String>) -> (r: Result<Vec<usize>, SearchError>)
    ensures
        r is Ok <==> all_found(names@, wanted@, wanted@.len() as int),
        match r {
            Ok(found) => first_positions(names@, wanted@, found@),
            Err(e) => reports_missing_tag(names@, wanted@, e),
        },
{
    let mut found: Vec<usize> = Vec::new();
    let mut k: usize = 0;
    while k < wanted.len()
        invariant
            k <= wanted@.len(),
            found@.len() == k,
            forall|j: int|
                0 <= j < k ==> {
                    let i = #[trigger] found@[j];
                    &&& i < names@.len()
                    &&& names@[i as int]@ == wanted@[j]@
                    &&& forall|m: int| 0 <= m < i ==> (#[trigger] names@[m])@ != wanted@[j]@
                },
        decreases wanted@.len() - k,
    {
        match find_name(names, wanted[k].as_str()) {
            Some(i) => found.push(i),
            None => {
                assert(all_found(names@, wanted@, k as int)) by {
                    assert forall|j: int| 0 <= j < k implies is_one_of(
                        names@,
                        (#[trigger] wanted@[j])@,
                    ) by {
                        let i = found@[j];
                        assert(names@[i as int]@ == wanted@[j]@);
                    }
                }
                let e = SearchError::TagNotFound {
                    name: wanted[k].clone(),
                    available: vec_to_string(names),
                };
                assert(!is_one_of(names@, wanted@[k as int]@));
                return Err(e);
            },
        }
        k += 1;
    }
    assert(all_found(names@, wanted@, wanted@.len() as int)) by {
        assert forall|j: int| 0 <= j < wanted@.len() implies is_one_of(
            names@,
            (#[trigger] wanted@[j])@,
        ) by {
            let i = found@[j];
            assert(names@[i as int]@ == wanted@[j]@);
        }
    }
    Ok(found)
}

/// What a search asks the website for; the category and the tags are given
/// by their positions in the lists of the website.
pub struct SearchQuery {
    pub keyword: Option<String>,
    pub is_finished: Option<bool>,
    pub is_vip: Option<bool>,
    pub update_days: Option<u8>,
    pub category: Option<usize>,
    pub tags: Option<Vec<usize>>,
    pub excluded_tags: Option<Vec<usize>>,
    pub word_count: Option<WordCountRange>,
}

/// What the user asks a search for.
pub struct SearchFilter {
    pub keyword: Option<String>,
    pub min_word_count: Option<u32>,
    pub max_word_count: Option<u32>,
    pub update_days: Option<u8>,
    pub is_finished: Option<bool>,
    pub is_vip: Option<bool>,
    /// The name of a category.
    pub category: Option<String>,
    /// The names of the tags that the novels must have.
    pub tags: Vec<String>,
    /// The names of the tags that the novels must not have.
    pub excluded_tags: Vec<String>,
}

/// `found` gives, for each of `wanted` in order, the position of the first of
/// `names` that is it.
pub open spec fn first_positions(names: Seq<String>, wanted: Seq<String>, found: Seq<usize>) -> bool {
    &&& found.len() == wanted.len()
    &&& forall|k: int|
        0 <= k < wanted.len() ==> {
            let i = #[trigger] found[k];
            &&& i < names.len()
            &&& names[i as int]@ == wanted[k]@
            &&& forall|m: int| 0 <= m < i ==> (#[trigger] names[m])@ != wanted[k]@
        }
}

/// The tags of a query for the tag names `wanted`: none where no tag is
/// named.
pub open spec fn tags_query(names: Seq<String>, wanted: Seq<String>, q: Option<Vec<usize>>) -> bool {
    if wanted.len() == 0 {
        q is None
    } else {
        q matches Some(found) && first_positions(names, wanted, found@)
    }
}

/// `e` reports the first of `wanted` that is not one of `names`.
pub open spec fn reports_missing_tag(names: Seq<String>, wanted: Seq<String>, e: SearchError) -> bool {
    e matches SearchError::TagNotFound { name, available } && exists|k: int|
        0 <= k < wanted.len() && name@ == (#[trigger] wanted[k])@ && all_found(names, wanted, k)
            && !is_one_of(names, name@) && available@ == join_spec(views(names), "、"@)
}

fn tags_of(names: &Vec<String>, wanted: &Vec<String>) -> (r: Result<Option<Vec<usize>>, SearchError>)
    ensures
        r is Ok <==> all_found(names@, wanted@, wanted@.len() as int),
        match r {
            Ok(q) => tags_query(names@, wanted@, q),
            Err(e) => reports_missing_tag(names@, wanted@, e),
        },
{
    if wanted.len() == 0 {
        return Ok(None);
    }
    match to_tags(names, wanted) {
        Ok(found) => Ok(Some(found)),
        Err(e) => {
            Err(e)
        },
    }
}

fn clone_opt_text(s: &Option<String>) -> (r: Option<String>)
    ensures
        opt_view(r) == opt_view(*s),
{
    match s {
        Some(t) => Some(t.clone()),
        None => None,
    }
}

/// The query of the search `filter` on a website whose categories and tags
/// have the names `category_names` and `tag_names`. It fails where a
/// category, a tag or an excluded tag, looked up in that order, has no such
/// name.
pub fn create_options(
    filter: &SearchFilter,
    category_names: &Vec<String>,
    tag_names: &Vec<String>,
) -> (r: Result<SearchQuery, SearchError>)
    ensures
        r is Ok <==> {
            &&& (filter.category matches Some(c) ==> is_one_of(category_names@, c@))
            &&& all_found(tag_names@, filter.tags@, filter.tags@.len() as int)
            &&& all_found(tag_names@, filter.excluded_tags@, filter.excluded_tags@.len() as int)
        },
        match r {
            Ok(q) => {
                &&& opt_view(q.keyword) == opt_view(filter.keyword)
                &&& q.is_finished == filter.is_finished
                &&& q.is_vip == filter.is_vip
                &&& q.update_days == filter.update_days
                &&& match filter.category {
                    None => q.category is None,
                    Some(c) => q.category matches Some(i) && i < category_names@.len()
                        && category_names@[i as int]@ == c@ && forall|m: int|
                        0 <= m < i ==> (#[trigger] category_names@[m])@ != c@,
                }
                &&& tags_query(tag_names@, filter.tags@, q.tags)
                &&& tags_query(tag_names@, filter.excluded_tags@, q.excluded_tags)
                &&& q.word_count == match (filter.min_word_count, filter.max_word_count) {
                    (Some(min), None) => Some(WordCountRange::RangeFrom(min)),
                    (None, Some(max)) => Some(WordCountRange::RangeTo(max)),
                    (Some(min), Some(max)) => Some(WordCountRange::Range(min, max)),
                    (None, None) => None::<WordCountRange>,
                }
            },
            Err(e) => if filter.category matches Some(c) && !is_one_of(category_names@, c@) {
                e matches SearchError::CategoryNotFound { name, available } && name@
                    == filter.category->Some_0@ && available@ == join_spec(
                    views(category_names@),
                    "、"@,
                )
            } else if !all_found(tag_names@, filter.tags@, filter.tags@.len() as int) {
                reports_missing_tag(tag_names@, filter.tags@, e)
            } else {
                reports_missing_tag(tag_names@, filter.excluded_tags@, e)
            },
        },
{
    let category = match &filter.category {
        None => None,
        Some(name) => match find_name(category_names, name.as_str()) {
            Some(i) => Some(i),
            None => {
                return Err(
                    SearchError::CategoryNotFound {
                        name: name.clone(),
                        available: vec_to_string(category_names),
                    },
                );
            },
        },
    };
    let tags = tags_of(tag_names, &filter.tags)?;
    let excluded_tags = tags_of(tag_names, &filter.excluded_tags)?;
    Ok(
        SearchQuery {
            keyword: clone_opt_text(&filter.keyword),
            is_finished: filter.is_finished,
            is_vip: filter.is_vip,
            update_days: filter.update_days,
            category,
            tags,
            excluded_tags,
            word_count: word_count_range(filter.min_word_count, filter.max_word_count),
        },
    )
}

} // verus!
