use vstd::prelude::*;

use crate::convert::{
    convert_text_of, seq_converted, convert_str, opencc_callable, opencc_failed, opencc_failed_on, spec_opencc_mode, text_converted, Convert, ConvertError, OpenccMode,
};
use crate::download::{ChapterInfo, VolumeInfo};
use crate::names::{decimal, push_decimal};
use crate::text::push_str;

verus! {

/// The state of the reader that its keys act on: whether it is leaving, how
/// much of the width the chapter list takes (in percent), and whether the
/// subscription prompt is shown.
pub struct ReaderState {
    pub exit: bool,
    pub percentage: u16,
    pub show_subscription: bool,
}

/// A key of the keyboard, as the reader tells them apart.
#[derive(Clone, Copy, PartialEq, Eq, Structural, Debug)]
pub enum Key {
    Char(char),
    Esc,
    Down,
    Up,
    Right,
    Left,
    Other,
}

/// A key press with its modifiers.
#[derive(Clone, Copy, PartialEq, Eq, Structural, Debug)]
pub struct KeyInput {
    pub key: Key,
    pub control: bool,
    pub shift: bool,
}

/// What the reader does for a key press. Where the chapter tree moves, the
/// tree tells whether the screen changed; otherwise `redraw` does.
#[derive(Clone, Copy, PartialEq, Eq, Structural, Debug)]
pub enum KeyAction {
    /// Leave the reader.
    Exit,
    /// Scroll the chapter text down by a line.
    ScrollContentDown,
    /// Scroll the chapter text up by a line.
    ScrollContentUp,
    /// Scroll the chapter text to its top, and select the next chapter.
    NextChapter,
    /// Scroll the chapter text to its top, and select the previous chapter.
    PreviousChapter,
    /// Open the selected volume.
    OpenVolume,
    /// Close the selected volume.
    CloseVolume,
    /// The chapter list was widened or narrowed (`true`) or was already at
    /// its limit (`false`).
    Resized(bool),
    /// Buy the selected chapter.
    BuyChapter,
    /// Nothing.
    Ignore,
}

/// The width of the chapter list stays between 20 and 50 percent, in steps
/// of five.
pub open spec fn percentage_ok(p: u16) -> bool {
    20 <= p <= 50 && p % 5 == 0
}

impl ReaderState {
    pub open spec fn wf(&self) -> bool {
        percentage_ok(self.percentage)
    }

    /// A reader that has just opened: the chapter list takes 30 percent of
    /// the width.
    pub fn new() -> (r: ReaderState)
        ensures
            r.wf(),
            r.percentage == 30,
            !r.exit,
            !r.show_subscription,
    {
        ReaderState { exit: false, percentage: 30, show_subscription: false }
    }

    /// Marks the reader as leaving.
    pub fn exit(&mut self) -> (r: bool)
        ensures
            r,
            final(self).exit,
            final(self).percentage == old(self).percentage,
            final(self).show_subscription == old(self).show_subscription,
    {
        self.exit = true;
        true
    }

    /// Widens the chapter list by five percent, up to 50.
    pub fn increase(&mut self) -> (r: bool)
        ensures
            r == (old(self).percentage <= 45),
            final(self).percentage == if r {
                old(self).percentage + 5
            } else {
                old(self).percentage as int
            },
            final(self).exit == old(self).exit,
            final(self).show_subscription == old(self).show_subscription,
            old(self).wf() ==> final(self).wf(),
    {
        if self.percentage <= 45 {
            self.percentage += 5;
            return true;
        }
        false
    }

    /// Narrows the chapter list by five percent, down to 20.
    pub fn reduce(&mut self) -> (r: bool)
        ensures
            r == (old(self).percentage >= 25),
            final(self).percentage == if r {
                old(self).percentage - 5
            } else {
                old(self).percentage as int
            },
            final(self).exit == old(self).exit,
            final(self).show_subscription == old(self).show_subscription,
            old(self).wf() ==> final(self).wf(),
    {
        if self.percentage >= 25 {
            self.percentage -= 5;
            return true;
        }
        false
    }

    /// What a key press does: `q`, Esc and Ctrl-C leave; the arrows move in
    /// the chapter tree, or with Shift scroll the text (up and down) or
    /// resize the chapter list (left and right); `y` buys the chapter while
    /// the subscription prompt is shown.
    pub fn handle_key_event(&mut self, input: KeyInput) -> (r: KeyAction)
        ensures
            r == spec_key_action(*old(self), input),
            *final(self) == spec_key_next(*old(self), input),
            old(self).wf() ==> final(self).wf(),
    {
        let leaves = match input.key {
            Key::Char(c) => c == 'q' || (c == 'c' && input.control),
            Key::Esc => true,
            _ => false,
        };
        if leaves {
            self.exit = true;
            return KeyAction::Exit;
        }
        match input.key {
            Key::Down => if input.shift {
                KeyAction::ScrollContentDown
            } else {
                KeyAction::NextChapter
            },
            Key::Up => if input.shift {
                KeyAction::ScrollContentUp
            } else {
                KeyAction::PreviousChapter
            },
            Key::Right => if input.shift {
                let changed = self.increase();
                KeyAction::Resized(changed)
            } else {
                KeyAction::OpenVolume
            },
            Key::Left => if input.shift {
                let changed = self.reduce();
                KeyAction::Resized(changed)
            } else {
                KeyAction::CloseVolume
            },
            Key::Char(c) => if c == 'y' && self.show_subscription {
                KeyAction::BuyChapter
            } else {
                KeyAction::Ignore
            },
            _ => KeyAction::Ignore,
        }
    }

    /// The chapter was bought: the prompt is hidden.
    pub fn subscription_done(&mut self)
        ensures
            !final(self).show_subscription,
            final(self).exit == old(self).exit,
            final(self).percentage == old(self).percentage,
    {
        self.show_subscription = false;
    }
}

/// The action of a key press on a reader in state `s`.
pub open spec fn spec_key_action(s: ReaderState, input: KeyInput) -> KeyAction {
    match input.key {
        Key::Char(c) => if c == 'q' || (c == 'c' && input.control) {
            KeyAction::Exit
        } else if c == 'y' && s.show_subscription {
            KeyAction::BuyChapter
        } else {
            KeyAction::Ignore
        },
        Key::Esc => KeyAction::Exit,
        Key::Down => if input.shift {
            KeyAction::ScrollContentDown
        } else {
            KeyAction::NextChapter
        },
        Key::Up => if input.shift {
            KeyAction::ScrollContentUp
        } else {
            KeyAction::PreviousChapter
        },
        Key::Right => if input.shift {
            KeyAction::Resized(s.percentage <= 45)
        } else {
            KeyAction::OpenVolume
        },
        Key::Left => if input.shift {
            KeyAction::Resized(s.percentage >= 25)
        } else {
            KeyAction::CloseVolume
        },
        Key::Other => KeyAction::Ignore,
    }
}

/// The state of the reader after a key press on a reader in state `s`.
pub open spec fn spec_key_next(s: ReaderState, input: KeyInput) -> ReaderState {
    match spec_key_action(s, input) {
        KeyAction::Exit => ReaderState { exit: true, ..s },
        KeyAction::Resized(true) => if input.key == Key::Right {
            ReaderState { percentage: (s.percentage + 5) as u16, ..s }
        } else {
            ReaderState { percentage: (s.percentage - 5) as u16, ..s }
        },
        _ => s,
    }
}

pub open spec fn shift_key(key: Key) -> KeyInput {
    KeyInput { key, control: false, shift: true }
}

/// No key press takes the width of the chapter list out of its bounds.
pub proof fn key_keeps_width_in_bounds(s: ReaderState, input: KeyInput)
    requires
        s.wf(),
    ensures
        spec_key_next(s, input).wf(),
{
}

/// Widening the chapter list with Shift-Right and narrowing it again with
/// Shift-Left gives back the reader as it was, wherever widening was
/// possible; and the other way round.
pub proof fn resize_round_trip(s: ReaderState)
    requires
        s.wf(),
    ensures
        s.percentage <= 45 ==> spec_key_next(
            spec_key_next(s, shift_key(Key::Right)),
            shift_key(Key::Left),
        ) == s,
        s.percentage >= 25 ==> spec_key_next(
            spec_key_next(s, shift_key(Key::Left)),
            shift_key(Key::Right),
        ) == s,
{
}

/// The action that moves the other way: scrolling the text up and down, and
/// going to the previous and the next chapter.
pub open spec fn opposite_action(a: KeyAction) -> KeyAction {
    match a {
        KeyAction::ScrollContentDown => KeyAction::ScrollContentUp,
        KeyAction::ScrollContentUp => KeyAction::ScrollContentDown,
        KeyAction::NextChapter => KeyAction::PreviousChapter,
        KeyAction::PreviousChapter => KeyAction::NextChapter,
        other => other,
    }
}

/// The Up and Down arrows move in opposite directions, with the same
/// modifiers and in every state: with Shift they scroll the chapter text
/// (Up scrolls it up), without it they step through the chapters (Up goes
/// to the previous one). Neither changes the state.
pub proof fn up_and_down_are_opposite(s: ReaderState, control: bool, shift: bool)
    ensures
        ({
            let up = KeyInput { key: Key::Up, control, shift };
            let down = KeyInput { key: Key::Down, control, shift };
            &&& spec_key_action(s, up) == opposite_action(spec_key_action(s, down))
            &&& spec_key_action(s, down) == opposite_action(spec_key_action(s, up))
            &&& spec_key_action(s, up) != spec_key_action(s, down)
            &&& shift ==> spec_key_action(s, up) == KeyAction::ScrollContentUp
            &&& !shift ==> spec_key_action(s, up) == KeyAction::PreviousChapter
            &&& spec_key_next(s, up) == s
            &&& spec_key_next(s, down) == s
        }),
{
}

/// Once the reader is leaving, no key press brings it back.
pub proof fn exit_is_final(s: ReaderState, input: KeyInput)
    requires
        s.exit,
    ensures
        spec_key_next(s, input).exit,
{
}

/// A rectangle of the terminal.
#[derive(Clone, Copy, PartialEq, Eq, Structural, Debug)]
pub struct Area {
    pub x: u16,
    pub y: u16,
    pub width: u16,
    pub height: u16,
}

pub open spec fn area_contains(area: Area, column: u16, row: u16) -> bool {
    area.x <= column < area.x + area.width && area.y <= row < area.y + area.height
}

impl Area {
    /// The cell at `column`, `row` lies in the area.
    pub fn contains(&self, column: u16, row: u16) -> (r: bool)
        ensures
            r == area_contains(*self, column, row),
    {
        self.x <= column && (column as u32) < (self.x as u32) + (self.width as u32) && self.y
            <= row && (row as u32) < (self.y as u32) + (self.height as u32)
    }
}

/// A mouse event, as the reader tells them apart.
#[derive(Clone, Copy, PartialEq, Eq, Structural, Debug)]
pub enum MouseKind {
    ScrollDown,
    ScrollUp,
    LeftClick,
    Other,
}

/// What the reader does for a mouse event.
#[derive(Clone, Copy, PartialEq, Eq, Structural, Debug)]
pub enum MouseAction {
    /// Scroll the chapter tree down by one line.
    ScrollTreeDown,
    /// Scroll the chapter tree up by one line.
    ScrollTreeUp,
    ScrollContentDown,
    ScrollContentUp,
    /// Select the chapter under the pointer; if one is, scroll the text to
    /// its top.
    ClickTree,
    Ignore,
}

pub open spec fn spec_mouse_action(
    kind: MouseKind,
    column: u16,
    row: u16,
    chapter_list_area: Area,
    content_area: Area,
) -> MouseAction {
    match kind {
        MouseKind::ScrollDown => if area_contains(chapter_list_area, column, row) {
            MouseAction::ScrollTreeDown
        } else if area_contains(content_area, column, row) {
            MouseAction::ScrollContentDown
        } else {
            MouseAction::Ignore
        },
        MouseKind::ScrollUp => if area_contains(chapter_list_area, column, row) {
            MouseAction::ScrollTreeUp
        } else if area_contains(content_area, column, row) {
            MouseAction::ScrollContentUp
        } else {
            MouseAction::Ignore
        },
        MouseKind::LeftClick => MouseAction::ClickTree,
        MouseKind::Other => MouseAction::Ignore,
    }
}

/// What a mouse event at `column`, `row` does: the wheel scrolls the pane
/// under the pointer, and a left click selects in the chapter tree.
pub fn handle_mouse_event(
    kind: MouseKind,
    column: u16,
    row: u16,
    chapter_list_area: Area,
    content_area: Area,
) -> (r: MouseAction)
    ensures
        r == spec_mouse_action(kind, column, row, chapter_list_area, content_area),
{
    match kind {
        MouseKind::ScrollDown => {
            if chapter_list_area.contains(column, row) {
                MouseAction::ScrollTreeDown
            } else if content_area.contains(column, row) {
                MouseAction::ScrollContentDown
            } else {
                MouseAction::Ignore
            }
        },
        MouseKind::ScrollUp => {
            if chapter_list_area.contains(column, row) {
                MouseAction::ScrollTreeUp
            } else if content_area.contains(column, row) {
                MouseAction::ScrollContentUp
            } else {
                MouseAction::Ignore
            }
        },
        MouseKind::LeftClick => MouseAction::ClickTree,
        MouseKind::Other => MouseAction::Ignore,
    }
}

/// The valid chapters among the first `n` of `chapters`, in order.
pub open spec fn valid_in(chapters: Seq<ChapterInfo>, n: int) -> Seq<ChapterInfo>
    decreases n,
{
    if n <= 0 {
        Seq::empty()
    } else if chapters[n - 1].is_valid {
        valid_in(chapters, n - 1).push(chapters[n - 1])
    } else {
        valid_in(chapters, n - 1)
    }
}

pub open spec fn valid_chapters(volume: VolumeInfo) -> Seq<ChapterInfo> {
    valid_in(volume.chapter_infos@, volume.chapter_infos@.len() as int)
}

/// The label of a chapter in the chapter list: its title, after the mark
/// "【未订阅】" (not bought) where it must be bought first.
pub open spec fn chapter_label(chapter: ChapterInfo) -> Seq<char> {
    (if chapter.payment_required {
        "【未订阅】"@
    } else {
        Seq::empty()
    }) + chapter.title@
}

/// A chapter in the chapter list.
pub struct TreeChapter {
    pub id: u32,
    pub title: String,
}

/// A volume in the chapter list: its position among all volumes, its title
/// and its valid chapters.
pub struct TreeVolume {
    pub index: u32,
    pub title: String,
    pub chapters: Vec<TreeChapter>,
}

/// `item` shows the volume at `index`, whose valid chapters are `valid`.
pub open spec fn tree_volume_shows<F: Fn(OpenccMode, &String) -> Result<String, ConvertError>>(
    opencc: F,
    converts: Seq<Convert>,
    index: int,
    info: VolumeInfo,
    item: TreeVolume,
) -> bool {
    let valid = valid_chapters(info);
    &&& item.index == index
    &&& seq_converted(opencc, converts, true, info.title@, item.title)
    &&& item.chapters@.len() == valid.len()
    &&& forall|k: int|
        0 <= k < valid.len() ==> (#[trigger] item.chapters@[k]).id == valid[k].id
            && seq_converted(opencc, converts, true, chapter_label(valid[k]), item.chapters@[k].title)
}

/// `items` is the chapter list of the first `n` of `infos`: one entry for
/// each volume with a valid chapter.
pub open spec fn tree_shows<F: Fn(OpenccMode, &String) -> Result<String, ConvertError>>(
    opencc: F,
    converts: Seq<Convert>,
    infos: Seq<VolumeInfo>,
    n: int,
    items: Seq<TreeVolume>,
) -> bool
    decreases n,
{
    if n <= 0 {
        items.len() == 0
    } else if valid_chapters(infos[n - 1]).len() == 0 {
        tree_shows(opencc, converts, infos, n - 1, items)
    } else {
        items.len() > 0 && tree_shows(opencc, converts, infos, n - 1, items.drop_last())
            && tree_volume_shows(opencc, converts, n - 1, infos[n - 1], items.last())
    }
}

/// OpenCC failed with `e` on the title of the volume `info` or on the label
/// of one of its valid chapters.
pub open spec fn tree_volume_failed<F: Fn(OpenccMode, &String) -> Result<String, ConvertError>>(
    opencc: F,
    converts: Seq<Convert>,
    info: VolumeInfo,
    e: ConvertError,
) -> bool {
    ||| opencc_failed_on(opencc, converts, info.title@, e)
    ||| exists|j: int|
        0 <= j < info.chapter_infos@.len() && (#[trigger] info.chapter_infos@[j]).is_valid
            && opencc_failed_on(opencc, converts, chapter_label(info.chapter_infos@[j]), e)
}

fn tree_volume<F: Fn(OpenccMode, &String) -> Result<String, ConvertError>>(
    info: &VolumeInfo,
    index: u32,
    converts: &[Convert],
    opencc: &F,
) -> (r: Result<TreeVolume, ConvertError>)
    requires
        opencc_callable(*opencc),
    ensures
        spec_opencc_mode(converts@) is None ==> r is Ok,
        r matches Ok(item) ==> tree_volume_shows(*opencc, converts@, index as int, *info, item),
        r matches Err(e) ==> tree_volume_failed(*opencc, converts@, *info, e),
{
    let mut chapters: Vec<TreeChapter> = Vec::new();
    let mut j: usize = 0;
    while j < info.chapter_infos.len()
        invariant
            opencc_callable(*opencc),
            j <= info.chapter_infos@.len(),
            chapters@.len() == valid_in(info.chapter_infos@, j as int).len(),
            forall|k: int|
                0 <= k < chapters@.len() ==> (#[trigger] chapters@[k]).id == valid_in(
                    info.chapter_infos@,
                    j as int,
                )[k].id && seq_converted(
                    *opencc,
                    converts@,
                    true,
                    chapter_label(valid_in(info.chapter_infos@, j as int)[k]),
                    chapters@[k].title,
                ),
        decreases info.chapter_infos@.len() - j,
    {
        let chapter = &info.chapter_infos[j];
        if chapter.is_valid {
            let mut label = String::new();
            if chapter.payment_required {
                push_str(&mut label, "【未订阅】");
            }
            push_str(&mut label, chapter.title.as_str());
            assert(label@ =~= chapter_label(*chapter));
            let title = match convert_text_of(label.as_str(), converts, true, opencc) {
                Ok(title) => title,
                Err(e) => {
                    assert(info.chapter_infos@[j as int].is_valid);
                    return Err(e);
                },
            };
            chapters.push(TreeChapter { id: chapter.id, title });
        }
        j += 1;
    }
    let title = convert_text_of(info.title.as_str(), converts, true, opencc)?;
    Ok(TreeVolume { index, title, chapters })
}

/// The chapter list of the reader: for each volume with a valid chapter, its
/// position, its title and its valid chapters, each titled by its label;
/// titles are converted by `converts` as headings.
pub fn chapter_list<F: Fn(OpenccMode, &String) -> Result<String, ConvertError>>(
    volume_infos: &Vec<VolumeInfo>,
    converts: &[Convert],
    opencc: &F,
) -> (r: Result<Vec<TreeVolume>, ConvertError>)
    requires
        opencc_callable(*opencc),
        volume_infos@.len() <= u32::MAX,
    ensures
        spec_opencc_mode(converts@) is None ==> r is Ok,
        r matches Ok(items) ==> tree_shows(
            *opencc,
            converts@,
            volume_infos@,
            volume_infos@.len() as int,
            items@,
        ),
        r matches Err(e) ==> exists|v: int|
            0 <= v < volume_infos@.len() && tree_volume_failed(
                *opencc,
                converts@,
                #[trigger] volume_infos@[v],
                e,
            ),
{
    let mut items: Vec<TreeVolume> = Vec::new();
    let mut v: usize = 0;
    while v < volume_infos.len()
        invariant
            opencc_callable(*opencc),
            v <= volume_infos@.len() <= u32::MAX,
            tree_shows(*opencc, converts@, volume_infos@, v as int, items@),
        decreases volume_infos@.len() - v,
    {
        let item = match tree_volume(&volume_infos[v], v as u32, converts, opencc) {
            Ok(item) => item,
            Err(e) => {
                assert(tree_volume_failed(*opencc, converts@, volume_infos@[v as int], e));
                return Err(e);
            },
        };
        if item.chapters.len() > 0 {
            let ghost before = items@;
            items.push(item);
            assert(items@.drop_last() =~= before);
        }
        v += 1;
    }
    Ok(items)
}

/// The chapter at `(v, j)` comes before the chapter at `(w, k)` in the novel.
pub open spec fn comes_before(v: int, j: int, w: int, k: int) -> bool {
    v < w || (v == w && j < k)
}

/// The position of the first chapter of `volume_infos` with the id
/// `chapter_id`: its volume and its place in the volume.
pub fn find_chapter_info(volume_infos: &Vec<VolumeInfo>, chapter_id: u32) -> (r: Option<(usize, usize)>)
    ensures
        match r {
            Some((v, j)) => v < volume_infos@.len() && j < volume_infos@[v as int].chapter_infos@.len()
                && volume_infos@[v as int].chapter_infos@[j as int].id == chapter_id && forall|
                w: int,
                k: int,
            |
                0 <= w < volume_infos@.len() && 0 <= k < volume_infos@[w].chapter_infos@.len()
                    && comes_before(w, k, v as int, j as int) ==> (
                #[trigger] volume_infos@[w].chapter_infos@[k]).id != chapter_id,
            None => forall|w: int, k: int|
                0 <= w < volume_infos@.len() && 0 <= k < volume_infos@[w].chapter_infos@.len()
                    ==> (#[trigger] volume_infos@[w].chapter_infos@[k]).id != chapter_id,
        },
{
    let mut v: usize = 0;
    while v < volume_infos.len()
        invariant
            v <= volume_infos@.len(),
            forall|w: int, k: int|
                0 <= w < v && 0 <= k < volume_infos@[w].chapter_infos@.len() ==> (
                #[trigger] volume_infos@[w].chapter_infos@[k]).id != chapter_id,
        decreases volume_infos@.len() - v,
    {
        let chapters = &volume_infos[v].chapter_infos;
        let mut j: usize = 0;
        while j < chapters.len()
            invariant
                j <= chapters@.len(),
                v < volume_infos@.len(),
                chapters == volume_infos@[v as int].chapter_infos,
                forall|w: int, k: int|
                    0 <= w < v && 0 <= k < volume_infos@[w].chapter_infos@.len() ==> (
                    #[trigger] volume_infos@[w].chapter_infos@[k]).id != chapter_id,
                forall|k: int| 0 <= k < j ==> (#[trigger] chapters@[k]).id != chapter_id,
            decreases chapters@.len() - j,
        {
            if chapters[j].id == chapter_id {
                return Some((v, j));
            }
            j += 1;
        }
        v += 1;
    }
    None
}

/// The text of the prompt to buy a chapter of price `price` with a balance
/// of `money`, before conversion.
pub open spec fn subscription_prompt(price: u16, money: u32) -> Seq<char> {
    "订阅本章："@ + decimal(price as nat) + "，账户余额："@ + decimal(money as nat)
        + "\n输入 y 订阅"@
}

/// The prompt to buy a chapter: its title "订阅章节" (buy the chapter) and its
/// text, which gives the price and the balance and asks for `y`, both
/// converted by `converts`.
pub fn subscription_popup<F: Fn(OpenccMode, &String) -> Result<String, ConvertError>>(
    price: u16,
    money: u32,
    converts: &[Convert],
    opencc: &F,
) -> (r: Result<(String, String), ConvertError>)
    requires
        opencc_callable(*opencc),
    ensures
        spec_opencc_mode(converts@) is None ==> r is Ok,
        r matches Ok((title, text)) ==> seq_converted(*opencc, converts@, false, "订阅章节"@, title)
            && seq_converted(*opencc, converts@, false, subscription_prompt(price, money), text),
        r matches Err(e) ==> opencc_failed_on(*opencc, converts@, subscription_prompt(price, money), e)
            || opencc_failed_on(*opencc, converts@, "订阅章节"@, e),
{
    let mut prompt = String::new();
    push_str(&mut prompt, "订阅本章：");
    push_decimal(&mut prompt, price as u32);
    push_str(&mut prompt, "，账户余额：");
    push_decimal(&mut prompt, money);
    push_str(&mut prompt, "\n输入 y 订阅");
    assert(prompt@ =~= subscription_prompt(price, money));
    let text = convert_str(&prompt, converts, false, opencc)?;
    let word = "订阅章节".to_string();
    let title = convert_str(&word, converts, false, opencc)?;
    Ok((title, text))
}

/// A piece of a chapter as the website gives it: a paragraph, or the address
/// of an image.
pub enum ContentInfo {
    Text(String),
    Image(String),
}

/// The first `n` of `contents` in the reader, each followed by an empty
/// line: a paragraph as its converted text `outputs[k]`, an image as its
/// address.
pub open spec fn content_text(contents: Seq<ContentInfo>, outputs: Seq<String>, n: int) -> Seq<char>
    decreases n,
{
    if n <= 0 {
        Seq::empty()
    } else {
        content_text(contents, outputs, n - 1) + match contents[n - 1] {
            ContentInfo::Text(_) => outputs[n - 1]@,
            ContentInfo::Image(url) => url@,
        } + "\n\n"@
    }
}

/// Each paragraph among `contents` is converted by `converts` into the text
/// at its place in `outputs`.
pub open spec fn paragraphs_converted<F: Fn(OpenccMode, &String) -> Result<String, ConvertError>>(
    opencc: F,
    converts: Seq<Convert>,
    contents: Seq<ContentInfo>,
    outputs: Seq<String>,
    n: int,
) -> bool {
    forall|k: int|
        0 <= k < n ==> (#[trigger] contents[k] matches ContentInfo::Text(t) ==> text_converted(
            opencc,
            converts,
            false,
            t,
            outputs[k],
        ))
}

/// The text of a chapter in the reader: its paragraphs converted by
/// `converts`, and the addresses of its images, each followed by an empty
/// line.
pub fn chapter_content<F: Fn(OpenccMode, &String) -> Result<String, ConvertError>>(
    contents: &Vec<ContentInfo>,
    converts: &[Convert],
    opencc: &F,
) -> (r: Result<String, ConvertError>)
    requires
        opencc_callable(*opencc),
    ensures
        spec_opencc_mode(converts@) is None ==> r is Ok,
        r matches Ok(text) ==> exists|outputs: Seq<String>|
            outputs.len() == contents@.len() && paragraphs_converted(
                *opencc,
                converts@,
                contents@,
                outputs,
                contents@.len() as int,
            ) && text@ == #[trigger] content_text(contents@, outputs, contents@.len() as int),
        r matches Err(e) ==> exists|k: int|
            0 <= k < contents@.len() && (#[trigger] contents@[k] matches ContentInfo::Text(t)
                && opencc_failed(*opencc, converts@, t, e)),
{
    let mut text = String::new();
    let ghost mut outputs: Seq<String> = Seq::empty();
    let mut k: usize = 0;
    while k < contents.len()
        invariant
            opencc_callable(*opencc),
            k <= contents@.len(),
            outputs.len() == k,
            paragraphs_converted(*opencc, converts@, contents@, outputs, k as int),
            text@ == content_text(contents@, outputs, k as int),
        decreases contents@.len() - k,
    {
        let ghost before = outputs;
        match &contents[k] {
            ContentInfo::Text(t) => {
                let c = match convert_str(t, converts, false, opencc) {
                    Ok(c) => c,
                    Err(e) => {
                        assert(contents@[k as int] matches ContentInfo::Text(t0) && opencc_failed(
                            *opencc,
                            converts@,
                            t0,
                            e,
                        ));
                        return Err(e);
                    },
                };
                push_str(&mut text, c.as_str());
                proof {
                    outputs = outputs.push(c);
                }
            },
            ContentInfo::Image(url) => {
                push_str(&mut text, url.as_str());
                proof {
                    outputs = outputs.push(*url);
                }
            },
        }
        push_str(&mut text, "\n\n");
        proof {
            assert forall|m: int| 0 <= m < k implies outputs[m] == before[m] by {}
            assert(content_text(contents@, outputs, k as int) == content_text(
                contents@,
                before,
                k as int,
            )) by {
                content_text_prefix(contents@, before, outputs, k as int);
            }
        }
        k += 1;
    }
    Ok(text)
}

proof fn content_text_prefix(contents: Seq<ContentInfo>, a: Seq<String>, b: Seq<String>, n: int)
    requires
        0 <= n <= a.len(),
        n <= b.len(),
        forall|m: int| 0 <= m < n ==> a[m] == b[m],
    ensures
        content_text(contents, a, n) == content_text(contents, b, n),
    decreases n,
{
    if n > 0 {
        content_text_prefix(contents, a, b, n - 1);
    }
}

/// Records that the chapter at `(v, j)` was bought for its price: it needs
/// no payment any more, and the price is taken from the balance `money`.
pub fn record_purchase(volume_infos: &mut Vec<VolumeInfo>, v: usize, j: usize, money: u32) -> (r: u32)
    requires
        v < old(volume_infos)@.len(),
        j < old(volume_infos)@[v as int].chapter_infos@.len(),
        old(volume_infos)@[v as int].chapter_infos@[j as int].price matches Some(p) && p <= money,
    ensures
        r == money - old(volume_infos)@[v as int].chapter_infos@[j as int].price->Some_0,
        final(volume_infos)@.len() == old(volume_infos)@.len(),
        forall|w: int|
            0 <= w < old(volume_infos)@.len() && w != v ==> #[trigger] final(volume_infos)@[w]
                == old(volume_infos)@[w],
        final(volume_infos)@[v as int].title == old(volume_infos)@[v as int].title,
        final(volume_infos)@[v as int].chapter_infos@.len() == old(
            volume_infos,
        )@[v as int].chapter_infos@.len(),
        forall|k: int|
            0 <= k < old(volume_infos)@[v as int].chapter_infos@.len() && k != j
                ==> #[trigger] final(volume_infos)@[v as int].chapter_infos@[k] == old(
                volume_infos,
            )@[v as int].chapter_infos@[k],
        ({
            let c = final(volume_infos)@[v as int].chapter_infos@[j as int];
            let o = old(volume_infos)@[v as int].chapter_infos@[j as int];
            c.id == o.id && c.title == o.title && c.can_download == o.can_download && c.is_valid
                == o.is_valid && c.price == o.price && !c.payment_required
        }),
{
    let price = match volume_infos[v].chapter_infos[j].price {
        Some(p) => p,
        None => 0,
    };
    volume_infos[v].chapter_infos[j].payment_required = false;
    money - price as u32
}

/// What the text pane shows for the selection of the chapter tree.
#[derive(Clone, Copy, PartialEq, Eq, Structural, Debug)]
pub enum ChapterView {
    /// No chapter is selected: the pane is cleared.
    Nothing,
    /// The chapter at `(v, j)` must be bought first: only its title shows,
    /// with the prompt to buy it.
    Locked(usize, usize),
    /// The text of the chapter at `(v, j)` shows.
    Open(usize, usize),
}

/// The view of the selection `selected` of the chapter tree (a path of
/// identifiers: a volume, then a chapter id): the first chapter with the
/// selected id, locked where it must be bought first. The prompt to buy is
/// shown exactly for a locked chapter.
pub fn select_view(state: &mut ReaderState, volume_infos: &Vec<VolumeInfo>, selected: &Vec<u32>) -> (r:
    ChapterView)
    ensures
        final(state).exit == old(state).exit,
        final(state).percentage == old(state).percentage,
        final(state).show_subscription == (r is Locked),
        selected@.len() != 2 ==> r == ChapterView::Nothing,
        match r {
            ChapterView::Nothing => selected@.len() != 2 || forall|w: int, k: int|
                0 <= w < volume_infos@.len() && 0 <= k < volume_infos@[w].chapter_infos@.len()
                    ==> (#[trigger] volume_infos@[w].chapter_infos@[k]).id != selected@[1],
            ChapterView::Locked(v, j) | ChapterView::Open(v, j) => {
                &&& selected@.len() == 2
                &&& v < volume_infos@.len()
                &&& j < volume_infos@[v as int].chapter_infos@.len()
                &&& volume_infos@[v as int].chapter_infos@[j as int].id == selected@[1]
                &&& forall|w: int, k: int|
                    0 <= w < volume_infos@.len() && 0 <= k < volume_infos@[w].chapter_infos@.len()
                        && comes_before(w, k, v as int, j as int) ==> (
                    #[trigger] volume_infos@[w].chapter_infos@[k]).id != selected@[1]
                &&& (r is Locked <==> volume_infos@[v as int].chapter_infos@[j as int].payment_required)
            },
        },
{
    let view = if selected.len() == 2 {
        match find_chapter_info(volume_infos, selected[1]) {
            Some((v, j)) => if volume_infos[v].chapter_infos[j].payment_required {
                ChapterView::Locked(v, j)
            } else {
                ChapterView::Open(v, j)
            },
            None => ChapterView::Nothing,
        }
    } else {
        ChapterView::Nothing
    };
    state.show_subscription = matches!(view, ChapterView::Locked(_, _));
    view
}

} // verus!
