use vstd::prelude::*;

use crate::convert::{
    convert_text_of, opencc_callable, opencc_failed_on, seq_converted, spec_opencc_mode, Convert, ConvertError,
    OpenccMode,
};
use crate::names::{decimal, decimal_string};
use crate::text::{join, join_spec, views};

verus! {

/// The information of a novel on a website.
pub struct NovelInfo {
    pub id: u32,
    pub name: String,
    pub author_name: String,
    pub cover_url: Option<String>,
    pub introduction: Option<Vec<String>>,
    pub word_count: Option<u32>,
    pub is_vip: Option<bool>,
    pub is_finished: Option<bool>,
    pub create_time: Option<String>,
    pub update_time: Option<String>,
    /// The name of the category.
    pub category: Option<String>,
    /// The names of the tags.
    pub tags: Option<Vec<String>>,
    /// The ids of the category and of its parent category, where the
    /// website gives them (both `None` without a category).
    pub category_ids: (Option<u16>, Option<u16>),
    /// The id of each tag, where the website gives it, in the order of
    /// `tags` (empty without tags).
    pub tag_ids: Vec<Option<u16>>,
}

/// A line of the information shown for a novel, or a column of the table
/// of novels.
#[derive(Clone, Copy, PartialEq, Eq, Structural, Debug)]
pub enum InfoField {
    /// The row number in a table.
    Index,
    /// The novel's id.
    Id,
    Name,
    Author,
    Category,
    Tags,
    WordCount,
    IsFinished,
    CreateTime,
    UpdateTime,
    Introduction,
}

/// The label of a field, in simplified Chinese.
pub open spec fn field_label(field: InfoField) -> Seq<char> {
    match field {
        InfoField::Index => seq!['序', '号'],
        InfoField::Id => seq!['编', '号'],
        InfoField::Name => seq!['名', '字'],
        InfoField::Author => seq!['作', '者'],
        InfoField::Category => seq!['类', '型'],
        InfoField::Tags => seq!['标', '签'],
        InfoField::WordCount => seq!['字', '数'],
        InfoField::IsFinished => seq!['状', '态'],
        InfoField::CreateTime => seq!['创', '建', '时', '间'],
        InfoField::UpdateTime => seq!['更', '新', '时', '间'],
        InfoField::Introduction => seq!['简', '介'],
    }
}

/// The label of a field, in simplified Chinese.
pub fn field_label_string(field: InfoField) -> (r: String)
    ensures
        r@ == field_label(field),
{
    let mut r = String::new();
    match field {
        InfoField::Index => {
            r.push('序');
            r.push('号');
        },
        InfoField::Id => {
            r.push('编');
            r.push('号');
        },
        InfoField::Name => {
            r.push('名');
            r.push('字');
        },
        InfoField::Author => {
            r.push('作');
            r.push('者');
        },
        InfoField::Category => {
            r.push('类');
            r.push('型');
        },
        InfoField::Tags => {
            r.push('标');
            r.push('签');
        },
        InfoField::WordCount => {
            r.push('字');
            r.push('数');
        },
        InfoField::IsFinished => {
            r.push('状');
            r.push('态');
        },
        InfoField::CreateTime => {
            r.push('创');
            r.push('建');
            r.push('时');
            r.push('间');
        },
        InfoField::UpdateTime => {
            r.push('更');
            r.push('新');
            r.push('时');
            r.push('间');
        },
        InfoField::Introduction => {
            r.push('简');
            r.push('介');
        },
    }
    assert(r@ =~= field_label(field));
    r
}

/// Whether the value of a field is converted along with the text (ids,
/// row numbers and times are not).
pub open spec fn spec_value_is_converted(field: InfoField) -> bool {
    !(field == InfoField::Index || field == InfoField::Id || field == InfoField::CreateTime
        || field == InfoField::UpdateTime)
}

pub fn value_is_converted(field: InfoField) -> (r: bool)
    ensures
        r == spec_value_is_converted(field),
{
    !(field == InfoField::Index || field == InfoField::Id || field == InfoField::CreateTime
        || field == InfoField::UpdateTime)
}

/// A word count: in units of ten thousand (`万`, rounded down) from ten
/// thousand on, as a number below that.
pub open spec fn word_count_text(word_count: u32) -> Seq<char> {
    if word_count >= 10000 {
        decimal((word_count / 10000) as nat).push('万')
    } else {
        decimal(word_count as nat)
    }
}

pub open spec fn finished_text(is_finished: bool) -> Seq<char> {
    if is_finished {
        seq!['已', '完', '结']
    } else {
        seq!['未', '完', '结']
    }
}

/// The finished state of a novel shows which state it is in: two novels
/// show the same text exactly when both are finished or both are not, and
/// the text is "已完结" (finished) exactly for a finished novel, "未完结"
/// (not finished) for the others.
pub proof fn finished_state_is_told_apart(a: NovelInfo, b: NovelInfo, n: u32, m: u32)
    requires
        a.is_finished is Some,
        b.is_finished is Some,
    ensures
        (field_text(a, n, InfoField::IsFinished) == field_text(b, m, InfoField::IsFinished))
            == (a.is_finished == b.is_finished),
        (field_text(a, n, InfoField::IsFinished) == "已完结"@) == (a.is_finished == Some(true)),
        (field_text(a, n, InfoField::IsFinished) == "未完结"@) == (a.is_finished == Some(false)),
{
    reveal_strlit("已完结");
    reveal_strlit("未完结");
    assert("已完结"@ =~= finished_text(true));
    assert("未完结"@ =~= finished_text(false));
    let ta = field_text(a, n, InfoField::IsFinished);
    let tb = field_text(b, m, InfoField::IsFinished);
    if a.is_finished != b.is_finished {
        assert(ta[0] != tb[0]);
    }
    if a.is_finished == Some(false) {
        assert(ta[0] != "已完结"@[0]);
    } else {
        assert(ta[0] != "未完结"@[0]);
    }
}

pub open spec fn opt_text(s: Option<String>) -> Seq<char> {
    match s {
        Some(t) => t@,
        None => Seq::empty(),
    }
}

pub open spec fn opt_join(list: Option<Vec<String>>, sep: Seq<char>) -> Seq<char> {
    match list {
        Some(l) => join_spec(views(l@), sep),
        None => Seq::empty(),
    }
}

pub open spec fn tag_separator() -> Seq<char> {
    seq!['、']
}

pub open spec fn line_separator() -> Seq<char> {
    seq!['\n']
}

/// The text shown for a field of a novel's information; empty where the
/// information lacks it. `number` is the row number of the novel.
pub open spec fn field_text(info: NovelInfo, number: u32, field: InfoField) -> Seq<char> {
    match field {
        InfoField::Index => decimal(number as nat),
        InfoField::Id => decimal(info.id as nat),
        InfoField::Name => info.name@,
        InfoField::Author => info.author_name@,
        InfoField::Category => opt_text(info.category),
        InfoField::Tags => opt_join(info.tags, tag_separator()),
        InfoField::WordCount => match info.word_count {
            Some(w) => word_count_text(w),
            None => Seq::empty(),
        },
        InfoField::IsFinished => match info.is_finished {
            Some(f) => finished_text(f),
            None => Seq::empty(),
        },
        InfoField::CreateTime => opt_text(info.create_time),
        InfoField::UpdateTime => opt_text(info.update_time),
        InfoField::Introduction => opt_join(info.introduction, line_separator()),
    }
}

fn opt_string(s: &Option<String>) -> (r: String)
    ensures
        r@ == opt_text(*s),
{
    match s {
        Some(t) => t.clone(),
        None => String::new(),
    }
}

/// The text shown for `field` of `info`, in row `number` of a table.
pub fn field_text_string(info: &NovelInfo, number: u32, field: InfoField) -> (r: String)
    ensures
        r@ == field_text(*info, number, field),
{
    proof {
        reveal_strlit("、");
        reveal_strlit("\n");
        assert("、"@ =~= tag_separator());
        assert("\n"@ =~= line_separator());
    }
    match field {
        InfoField::Index => decimal_string(number),
        InfoField::Id => decimal_string(info.id),
        InfoField::Name => info.name.clone(),
        InfoField::Author => info.author_name.clone(),
        InfoField::Category => opt_string(&info.category),
        InfoField::Tags => match &info.tags {
            Some(tags) => {
                let r = join(tags, "、");
                assert(r@ == opt_join(info.tags, tag_separator()));
                r
            },
            None => String::new(),
        },
        InfoField::WordCount => match info.word_count {
            Some(w) => {
                if w >= 10000 {
                    let mut r = decimal_string(w / 10000);
                    r.push('万');
                    r
                } else {
                    decimal_string(w)
                }
            },
            None => String::new(),
        },
        InfoField::IsFinished => match info.is_finished {
            Some(f) => {
                let mut r = String::new();
                if f {
                    r.push('已');
                } else {
                    r.push('未');
                }
                r.push('完');
                r.push('结');
                assert(r@ =~= finished_text(f));
                r
            },
            None => String::new(),
        },
        InfoField::CreateTime => opt_string(&info.create_time),
        InfoField::UpdateTime => opt_string(&info.update_time),
        InfoField::Introduction => match &info.introduction {
            Some(lines) => {
                let r = join(lines, "\n");
                assert(r@ == opt_join(info.introduction, line_separator()));
                r
            },
            None => String::new(),
        },
    }
}

/// The information has a value for the field (the row number, the id, the
/// name and the author are always there).
pub open spec fn has_field(info: NovelInfo, field: InfoField) -> bool {
    match field {
        InfoField::Category => info.category is Some,
        InfoField::Tags => info.tags is Some,
        InfoField::WordCount => info.word_count is Some,
        InfoField::IsFinished => info.is_finished is Some,
        InfoField::CreateTime => info.create_time is Some,
        InfoField::UpdateTime => info.update_time is Some,
        InfoField::Introduction => info.introduction is Some,
        _ => true,
    }
}

pub fn has_field_exec(info: &NovelInfo, field: InfoField) -> (r: bool)
    ensures
        r == has_field(*info, field),
{
    match field {
        InfoField::Category => info.category.is_some(),
        InfoField::Tags => info.tags.is_some(),
        InfoField::WordCount => info.word_count.is_some(),
        InfoField::IsFinished => info.is_finished.is_some(),
        InfoField::CreateTime => info.create_time.is_some(),
        InfoField::UpdateTime => info.update_time.is_some(),
        InfoField::Introduction => info.introduction.is_some(),
        _ => true,
    }
}

/// The fields that may be missing, in the order they are shown.
pub open spec fn optional_fields() -> Seq<InfoField> {
    seq![
        InfoField::Category,
        InfoField::Tags,
        InfoField::WordCount,
        InfoField::IsFinished,
        InfoField::CreateTime,
        InfoField::UpdateTime,
        InfoField::Introduction,
    ]
}

/// The fields shown for one novel, in order: the name and the author, then
/// each optional field that the information has.
pub open spec fn shown_fields(info: NovelInfo) -> Seq<InfoField> {
    seq![InfoField::Name, InfoField::Author] + optional_fields().filter(
        |f: InfoField| has_field(info, f),
    )
}

fn optional_field_list() -> (r: Vec<InfoField>)
    ensures
        r@ == optional_fields(),
{
    let r = vec![
        InfoField::Category,
        InfoField::Tags,
        InfoField::WordCount,
        InfoField::IsFinished,
        InfoField::CreateTime,
        InfoField::UpdateTime,
        InfoField::Introduction,
    ];
    assert(r@ =~= optional_fields());
    r
}

/// The fields shown for one novel, in order.
pub fn novel_info_fields(info: &NovelInfo) -> (r: Vec<InfoField>)
    ensures
        r@ == shown_fields(*info),
{
    let all = optional_field_list();
    let mut r: Vec<InfoField> = vec![InfoField::Name, InfoField::Author];
    let mut i: usize = 0;
    while i < all.len()
        invariant
            i <= all.len(),
            all@ == optional_fields(),
            r@ == seq![InfoField::Name, InfoField::Author] + all@.take(i as int).filter(
                |f: InfoField| has_field(*info, f),
            ),
        decreases all.len() - i,
    {
        let f = all[i];
        proof {
            reveal_with_fuel(Seq::filter, 1);
            assert(all@.take(i + 1).drop_last() =~= all@.take(i as int));
        }
        if has_field_exec(info, f) {
            r.push(f);
        }
        i += 1;
    }
    assert(all@.take(all.len() as int) =~= all@);
    r
}

/// Some novel of `infos` has a value for the field.
pub open spec fn any_has_field(infos: Seq<NovelInfo>, field: InfoField) -> bool {
    exists|i: int| 0 <= i < infos.len() && has_field(#[trigger] infos[i], field)
}

/// The optional columns of the table of novels.
pub open spec fn optional_columns() -> Seq<InfoField> {
    optional_fields().drop_last()
}

/// The columns of the table of novels, in order: the row number, the id,
/// the name and the author, then each optional field (but the
/// introduction) that some novel has.
pub open spec fn table_columns(infos: Seq<NovelInfo>) -> Seq<InfoField> {
    seq![InfoField::Index, InfoField::Id, InfoField::Name, InfoField::Author]
        + optional_columns().filter(|f: InfoField| any_has_field(infos, f))
}

fn any_has_field_exec(infos: &Vec<NovelInfo>, field: InfoField) -> (r: bool)
    ensures
        r == any_has_field(infos@, field),
{
    let mut i: usize = 0;
    while i < infos.len()
        invariant
            i <= infos.len(),
            forall|j: int| 0 <= j < i ==> !has_field(#[trigger] infos@[j], field),
        decreases infos.len() - i,
    {
        if has_field_exec(&infos[i], field) {
            return true;
        }
        i += 1;
    }
    false
}

/// The columns of the table of novels, in order.
pub fn info_columns(infos: &Vec<NovelInfo>) -> (r: Vec<InfoField>)
    ensures
        r@ == table_columns(infos@),
{
    let mut all = optional_field_list();
    all.pop();
    assert(all@ =~= optional_columns());
    let mut r: Vec<InfoField> = vec![
        InfoField::Index,
        InfoField::Id,
        InfoField::Name,
        InfoField::Author,
    ];
    let mut i: usize = 0;
    while i < all.len()
        invariant
            i <= all.len(),
            all@ == optional_columns(),
            r@ == seq![InfoField::Index, InfoField::Id, InfoField::Name, InfoField::Author]
                + all@.take(i as int).filter(|f: InfoField| any_has_field(infos@, f)),
        decreases all.len() - i,
    {
        let f = all[i];
        proof {
            reveal_with_fuel(Seq::filter, 1);
            assert(all@.take(i + 1).drop_last() =~= all@.take(i as int));
        }
        if any_has_field_exec(infos, f) {
            r.push(f);
        }
        i += 1;
    }
    assert(all@.take(all.len() as int) =~= all@);
    r
}

/// `cell` shows `field` of `info` in row `number`: its text, converted by
/// `converts` where the field's values are converted.
pub open spec fn cell_shows<F: Fn(OpenccMode, &String) -> Result<String, ConvertError>>(
    opencc: F,
    converts: Seq<Convert>,
    info: NovelInfo,
    number: u32,
    field: InfoField,
    cell: String,
) -> bool {
    if spec_value_is_converted(field) {
        seq_converted(opencc, converts, false, field_text(info, number, field), cell)
    } else {
        cell@ == field_text(info, number, field)
    }
}

/// OpenCC failed with `e` on the text of `field` of `info` in row `number`,
/// a field whose values are converted.
pub open spec fn cell_failed<F: Fn(OpenccMode, &String) -> Result<String, ConvertError>>(
    opencc: F,
    converts: Seq<Convert>,
    info: NovelInfo,
    number: u32,
    field: InfoField,
    e: ConvertError,
) -> bool {
    spec_value_is_converted(field) && opencc_failed_on(
        opencc,
        converts,
        field_text(info, number, field),
        e,
    )
}

fn cell<F: Fn(OpenccMode, &String) -> Result<String, ConvertError>>(
    info: &NovelInfo,
    number: u32,
    field: InfoField,
    converts: &[Convert],
    opencc: &F,
) -> (r: Result<String, ConvertError>)
    requires
        opencc_callable(*opencc),
    ensures
        spec_opencc_mode(converts@) is None ==> r is Ok,
        r matches Ok(c) ==> cell_shows(*opencc, converts@, *info, number, field, c),
        r matches Err(e) ==> cell_failed(*opencc, converts@, *info, number, field, e),
{
    let text = field_text_string(info, number, field);
    if value_is_converted(field) {
        convert_text_of(text.as_str(), converts, false, opencc)
    } else {
        Ok(text)
    }
}

fn label<F: Fn(OpenccMode, &String) -> Result<String, ConvertError>>(
    field: InfoField,
    converts: &[Convert],
    opencc: &F,
) -> (r: Result<String, ConvertError>)
    requires
        opencc_callable(*opencc),
    ensures
        spec_opencc_mode(converts@) is None ==> r is Ok,
        r matches Ok(l) ==> seq_converted(*opencc, converts@, false, field_label(field), l),
        r matches Err(e) ==> opencc_failed_on(*opencc, converts@, field_label(field), e),
{
    let text = field_label_string(field);
    convert_text_of(text.as_str(), converts, false, opencc)
}

/// The lines shown for one novel, each a label and a value: the fields of
/// `novel_info_fields`, the labels converted by `converts`, and the values
/// as `cell_shows` says.
pub fn novel_info_lines<F: Fn(OpenccMode, &String) -> Result<String, ConvertError>>(
    info: &NovelInfo,
    converts: &[Convert],
    opencc: &F,
) -> (r: Result<Vec<(String, String)>, ConvertError>)
    requires
        opencc_callable(*opencc),
    ensures
        spec_opencc_mode(converts@) is None ==> r is Ok,
        r matches Ok(lines) ==> lines@.len() == shown_fields(*info).len() && forall|k: int|
            0 <= k < lines@.len() ==> seq_converted(
                *opencc,
                converts@,
                false,
                field_label(shown_fields(*info)[k]),
                (#[trigger] lines@[k]).0,
            ) && cell_shows(*opencc, converts@, *info, 0, shown_fields(*info)[k], lines@[k].1),
        r matches Err(e) ==> exists|k: int|
            0 <= k < shown_fields(*info).len() && (opencc_failed_on(
                *opencc,
                converts@,
                field_label(#[trigger] shown_fields(*info)[k]),
                e,
            ) || cell_failed(*opencc, converts@, *info, 0, shown_fields(*info)[k], e)),
{
    let fields = novel_info_fields(info);
    let mut lines: Vec<(String, String)> = Vec::new();
    let mut k: usize = 0;
    while k < fields.len()
        invariant
            opencc_callable(*opencc),
            k <= fields@.len(),
            fields@ == shown_fields(*info),
            lines@.len() == k,
            forall|j: int|
                0 <= j < k ==> seq_converted(
                    *opencc,
                    converts@,
                    false,
                    field_label(fields@[j]),
                    (#[trigger] lines@[j]).0,
                ) && cell_shows(*opencc, converts@, *info, 0, fields@[j], lines@[j].1),
        decreases fields@.len() - k,
    {
        let l = match label(fields[k], converts, opencc) {
            Ok(l) => l,
            Err(e) => {
                assert(shown_fields(*info)[k as int] == fields@[k as int]);
                return Err(e);
            },
        };
        let v = match cell(info, 0, fields[k], converts, opencc) {
            Ok(v) => v,
            Err(e) => {
                assert(shown_fields(*info)[k as int] == fields@[k as int]);
                return Err(e);
            },
        };
        lines.push((l, v));
        k += 1;
    }
    Ok(lines)
}

/// The table of novels: its header, the labels of `info_columns` converted
/// by `converts`, and a row for each novel, numbered from 1, with the cells
/// that `cell_shows` says.
pub fn novel_info_table<F: Fn(OpenccMode, &String) -> Result<String, ConvertError>>(
    infos: &Vec<NovelInfo>,
    converts: &[Convert],
    opencc: &F,
) -> (r: Result<(Vec<String>, Vec<Vec<String>>), ConvertError>)
    requires
        opencc_callable(*opencc),
        infos@.len() < u32::MAX,
    ensures
        spec_opencc_mode(converts@) is None ==> r is Ok,
        r matches Ok((header, rows)) ==> {
            let columns = table_columns(infos@);
            &&& header@.len() == columns.len()
            &&& forall|c: int|
                0 <= c < columns.len() ==> seq_converted(
                    *opencc,
                    converts@,
                    false,
                    field_label(columns[c]),
                    #[trigger] header@[c],
                )
            &&& rows@.len() == infos@.len()
            &&& forall|i: int|
                0 <= i < infos@.len() ==> (#[trigger] rows@[i])@.len() == columns.len()
                    && forall|c: int|
                    0 <= c < columns.len() ==> cell_shows(
                        *opencc,
                        converts@,
                        infos@[i],
                        (i + 1) as u32,
                        columns[c],
                        #[trigger] rows@[i]@[c],
                    )
        },
        r matches Err(e) ==> {
            let columns = table_columns(infos@);
            ||| exists|c: int|
                0 <= c < columns.len() && opencc_failed_on(
                    *opencc,
                    converts@,
                    field_label(#[trigger] columns[c]),
                    e,
                )
            ||| exists|i: int, c: int|
                0 <= i < infos@.len() && 0 <= c < columns.len() && cell_failed(
                    *opencc,
                    converts@,
                    #[trigger] infos@[i],
                    (i + 1) as u32,
                    #[trigger] columns[c],
                    e,
                )
        },
{
    let columns = info_columns(infos);
    let mut header: Vec<String> = Vec::new();
    let mut c: usize = 0;
    while c < columns.len()
        invariant
            opencc_callable(*opencc),
            columns@ == table_columns(infos@),
            c <= columns@.len(),
            header@.len() == c,
            forall|j: int|
                0 <= j < c ==> seq_converted(
                    *opencc,
                    converts@,
                    false,
                    field_label(columns@[j]),
                    #[trigger] header@[j],
                ),
        decreases columns@.len() - c,
    {
        let l = match label(columns[c], converts, opencc) {
            Ok(l) => l,
            Err(e) => {
                assert(table_columns(infos@)[c as int] == columns@[c as int]);
                return Err(e);
            },
        };
        header.push(l);
        c += 1;
    }
    let mut rows: Vec<Vec<String>> = Vec::new();
    let mut i: usize = 0;
    while i < infos.len()
        invariant
            opencc_callable(*opencc),
            i <= infos@.len() < u32::MAX,
            columns@ == table_columns(infos@),
            rows@.len() == i,
            forall|x: int|
                0 <= x < i ==> (#[trigger] rows@[x])@.len() == columns@.len() && forall|j: int|
                    0 <= j < columns@.len() ==> cell_shows(
                        *opencc,
                        converts@,
                        infos@[x],
                        (x + 1) as u32,
                        columns@[j],
                        #[trigger] rows@[x]@[j],
                    ),
        decreases infos@.len() - i,
    {
        let number = (i + 1) as u32;
        let mut row: Vec<String> = Vec::new();
        let mut j: usize = 0;
        while j < columns.len()
            invariant
                opencc_callable(*opencc),
                i < infos@.len(),
                infos@.len() < u32::MAX,
                columns@ == table_columns(infos@),
                number == i + 1,
                j <= columns@.len(),
                row@.len() == j,
                forall|y: int|
                    0 <= y < j ==> cell_shows(
                        *opencc,
                        converts@,
                        infos@[i as int],
                        number,
                        columns@[y],
                        #[trigger] row@[y],
                    ),
            decreases columns@.len() - j,
        {
            let v = match cell(&infos[i], number, columns[j], converts, opencc) {
                Ok(v) => v,
                Err(e) => {
                    assert(table_columns(infos@)[j as int] == columns@[j as int]);
                    assert(cell_failed(
                        *opencc,
                        converts@,
                        infos@[i as int],
                        (i + 1) as u32,
                        columns@[j as int],
                        e,
                    ));
                    return Err(e);
                },
            };
            row.push(v);
            j += 1;
        }
        rows.push(row);
        i += 1;
    }
    Ok((header, rows))
}

} // verus!
