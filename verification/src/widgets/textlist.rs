use vstd::prelude::*;
use crate::graphemes::{concat_clusters, grapheme_split, graphemes_of};
use crate::style::{BorderType, Style};
use crate::widgets::textfield::scroll_after_update;

verus! {

/// Errors that the text list operations may return.
#[derive(Clone, Copy, Debug, PartialEq, Eq, Structural)]
pub enum TextListError {
    /// `height` has not been set.
    UnknownHeight,
    /// The available height is below the minimum of three rows.
    NotEnoughHeight,
}

/// How to display items longer than the available width.
#[derive(Clone, Copy, Debug, PartialEq, Eq, Structural)]
pub enum TrimType {
    /// End a long item with a single ellipsis character.
    ShortTripleDot,
    /// End a long item with three dots.
    FullTripleDot,
    /// Cut to the width with nothing appended.
    NoTrim,
}

/// The characters appended to an item cut off by trimming.
pub open spec fn trim_suffix(t: TrimType) -> Seq<char> {
    match t {
        TrimType::ShortTripleDot => seq!['\u{2026}'],
        TrimType::FullTripleDot => seq!['.', '.', '.'],
        TrimType::NoTrim => Seq::<char>::empty(),
    }
}

/// A scrollable widget for selecting from a list of items.
///
/// The selected item is drawn inside a three-row border, so the widget
/// needs a height of at least three; the height must be declared with
/// `set_height` before any operation that resolves scrolling.
#[derive(Debug)]
pub struct TextList {
    /// The items of the list.
    pub items: Vec<String>,
    /// Position of the selected item; `0` is the first item.
    pub selected: usize,
    /// How many items are scrolled off above the window.
    pub scroll: usize,
    /// Style of the whole list, including unselected items.
    pub style: Style,
    /// Style of the border drawn around the selected item.
    pub cursor_style: Style,
    /// Style of the selected item.
    pub selected_style: Style,
    /// Border family for the box around the selected item.
    pub border_type: BorderType,
    /// Height available to the widget, in rows.
    pub height: Option<u16>,
    /// Replace non-ASCII characters when displaying.
    pub ascii_only: bool,
    /// The replacement used when `ascii_only` is set.
    pub non_ascii_replace: char,
    /// How to display items wider than the widget.
    pub trim_type: TrimType,
}

impl TextList {
    /// The fields of both lists hold the same values.
    pub open spec fn congruent(self, other: TextList) -> bool {
        &&& self.items@ == other.items@
        &&& self.selected == other.selected
        &&& self.scroll == other.scroll
        &&& self.style == other.style
        &&& self.cursor_style == other.cursor_style
        &&& self.selected_style == other.selected_style
        &&& self.border_type == other.border_type
        &&& self.height == other.height
        &&& self.ascii_only == other.ascii_only
        &&& self.non_ascii_replace == other.non_ascii_replace
        &&& self.trim_type == other.trim_type
    }

    /// All fields other than `selected` and `scroll` hold the same values.
    pub open spec fn same_but_position(self, other: TextList) -> bool {
        &&& self.items@ == other.items@
        &&& self.style == other.style
        &&& self.cursor_style == other.cursor_style
        &&& self.selected_style == other.selected_style
        &&& self.border_type == other.border_type
        &&& self.height == other.height
        &&& self.ascii_only == other.ascii_only
        &&& self.non_ascii_replace == other.non_ascii_replace
        &&& self.trim_type == other.trim_type
    }
}

impl Clone for TextList {
    fn clone(&self) -> (r: Self)
        ensures
            r.congruent(*self),
    {
        let r = TextList {
            items: self.items.clone(),
            selected: self.selected,
            scroll: self.scroll,
            style: self.style,
            cursor_style: self.cursor_style,
            selected_style: self.selected_style,
            border_type: self.border_type,
            height: self.height,
            ascii_only: self.ascii_only,
            non_ascii_replace: self.non_ascii_replace,
            trim_type: self.trim_type,
        };
        proof {
            assert(r.items@ =~= self.items@);
        }
        r
    }
}

impl Default for TextList {
    fn default() -> (r: Self)
        ensures
            r.items@ == Seq::<String>::empty(),
            r.selected == 0,
            r.scroll == 0,
            r.style == Style::plain(),
            r.cursor_style == Style::plain(),
            r.selected_style == Style::plain(),
            r.border_type == BorderType::Plain,
            r.height is None,
            !r.ascii_only,
            r.non_ascii_replace == '?',
            r.trim_type == TrimType::FullTripleDot,
    {
        TextList {
            items: Vec::new(),
            selected: 0,
            scroll: 0,
            style: Style::new(),
            cursor_style: Style::new(),
            selected_style: Style::new(),
            border_type: BorderType::Plain,
            height: None,
            ascii_only: false,
            non_ascii_replace: '?',
            trim_type: TrimType::FullTripleDot,
        }
    }
}

/// Movement
impl TextList {
    /// Re-align the scroll window of `height - 2` visible rows so that the
    /// selected item is inside it.
    ///
    /// Fails with `UnknownHeight` when no height was declared and with
    /// `NotEnoughHeight` when fewer than three rows are available; either
    /// way the list is left unchanged.
    pub fn update(&mut self) -> (r: Result<(), TextListError>)
        ensures
            final(self).same_but_position(*old(self)),
            final(self).selected == old(self).selected,
            r is Ok <==> (old(self).height matches Some(h) && h >= 3),
            old(self).height is None ==> r == Result::<(), TextListError>::Err(
                TextListError::UnknownHeight,
            ) && *final(self) == *old(self),
            old(self).height matches Some(h) ==> (h < 3 ==> r == Result::<(), TextListError>::Err(
                TextListError::NotEnoughHeight,
            ) && *final(self) == *old(self)),
            old(self).height matches Some(h) ==> (h >= 3 ==> final(self).scroll
                == scroll_after_update(
                old(self).scroll,
                old(self).selected,
                (h - 2) as u16,
            )),
    {
        let height: u16 = match self.height {
            Some(h) => h,
            None => { return Err(TextListError::UnknownHeight) },
        };
        if height < 3 {
            return Err(TextListError::NotEnoughHeight);
        }
        let visible: usize = height as usize - 2;
        if self.selected < self.scroll {
            self.scroll = self.selected;
        } else if visible <= self.selected - self.scroll {
            self.scroll = self.selected - visible + 1;
        }
        Ok(())
    }

    /// Move the selection up by one item, when there is one above.
    pub fn up(&mut self) -> (r: Result<(), TextListError>)
        ensures
            final(self).same_but_position(*old(self)),
            old(self).selected == 0 ==> r is Ok && *final(self) == *old(self),
            old(self).selected != 0 ==> final(self).selected == old(self).selected - 1 && (
            r is Ok <==> (old(self).height matches Some(h) && h >= 3)),
            old(self).height matches Some(h) ==> (old(self).selected != 0 && r is Ok ==> final(self).scroll == scroll_after_update(
                old(self).scroll,
                (old(self).selected - 1) as usize,
                (h - 2) as u16,
            )),
            r is Err ==> final(self).scroll == old(self).scroll,
    {
        if self.selected != 0 {
            self.selected = self.selected - 1;
            return self.update();
        }
        Ok(())
    }

    /// Move the selection down by one item, when there is one below.
    pub fn down(&mut self) -> (r: Result<(), TextListError>)
        ensures
            final(self).same_but_position(*old(self)),
            old(self).items@.len() == 0 ==> r is Ok && *final(self) == *old(self),
            old(self).items@.len() > 0 && old(self).selected >= old(self).items@.len() - 1 ==> (
            r is Ok && *final(self) == *old(self)),
            old(self).items@.len() > 0 && old(self).selected < old(self).items@.len() - 1 ==> final(self).selected == old(self).selected + 1 && (r is Ok <==> (old(self).height matches Some(h)
                && h >= 3)),
            old(self).height matches Some(h) ==> (old(self).items@.len() > 0 && old(self).selected < old(self).items@.len() - 1 && r is Ok ==> final(self).scroll
                == scroll_after_update(
                old(self).scroll,
                (old(self).selected + 1) as usize,
                (h - 2) as u16,
            )),
            r is Err ==> final(self).scroll == old(self).scroll,
    {
        if self.items.len() == 0 {
            return Ok(());
        }
        if self.selected < self.items.len() - 1 {
            self.selected = self.selected + 1;
            return self.update();
        }
        Ok(())
    }

    /// Go to the first item.
    pub fn first(&mut self) -> (r: Result<(), TextListError>)
        ensures
            final(self).same_but_position(*old(self)),
            old(self).selected == 0 ==> r is Ok && *final(self) == *old(self),
            old(self).selected != 0 ==> final(self).selected == 0 && (r is Ok <==> (old(self).height matches Some(h) && h >= 3)),
            old(self).selected != 0 && r is Ok ==> final(self).scroll == 0,
            r is Err ==> final(self).scroll == old(self).scroll,
    {
        if self.selected == 0 {
            return Ok(());
        }
        self.selected = 0;
        self.update()
    }

    /// Go to the last item, when the list has any.
    pub fn last(&mut self) -> (r: Result<(), TextListError>)
        ensures
            final(self).same_but_position(*old(self)),
            old(self).items@.len() == 0 ==> r is Ok && *final(self) == *old(self),
            old(self).items@.len() > 0 && old(self).selected == old(self).items@.len() - 1 ==> (
            r is Ok && *final(self) == *old(self)),
            old(self).items@.len() > 0 && old(self).selected != old(self).items@.len() - 1 ==> final(self).selected == old(self).items@.len() - 1 && (r is Ok <==> (old(self).height matches Some(h) && h >= 3)),
            old(self).height matches Some(h) ==> (old(self).items@.len() > 0 && old(self).selected != old(self).items@.len() - 1 && r is Ok ==> final(self).scroll
                == scroll_after_update(
                old(self).scroll,
                (old(self).items@.len() - 1) as usize,
                (h - 2) as u16,
            )),
            r is Err ==> final(self).scroll == old(self).scroll,
    {
        if self.items.len() == 0 {
            return Ok(());
        }
        if self.selected == self.items.len() - 1 {
            return Ok(());
        }
        self.selected = self.items.len() - 1;
        self.update()
    }
}

/// The selection and scroll after paging one window up, before the scroll
/// window is re-aligned.
pub open spec fn pageup_target(selected: usize, scroll: usize, shift: u16) -> (int, int) {
    if selected < shift {
        (0, scroll as int)
    } else {
        (selected - shift, if scroll > shift {
            scroll - shift
        } else {
            0
        })
    }
}

/// The selection and scroll after paging one window down, before the scroll
/// window is re-aligned. `len` is the item count and `h` the widget height.
pub open spec fn pagedown_target(selected: usize, scroll: usize, len: int, h: u16) -> (int, int) {
    let shift = h - 2;
    if selected + shift > len - 1 {
        (len - 1, scroll as int)
    } else {
        (selected + shift, if scroll + 2 * shift < len {
            scroll + shift
        } else if len + 1 >= h {
            len + 1 - h
        } else {
            0
        })
    }
}

impl TextList {
    /// Go up by one window of items, keeping the cursor's place on screen.
    pub fn pageup(&mut self) -> (r: Result<(), TextListError>)
        ensures
            final(self).same_but_position(*old(self)),
            r is Ok <==> (old(self).selected == 0 && old(self).height is Some) || (old(self).height matches Some(h) && h >= 3),
            old(self).height is None ==> r == Result::<(), TextListError>::Err(
                TextListError::UnknownHeight,
            ) && *final(self) == *old(self),
            old(self).height is Some && old(self).selected == 0 ==> r is Ok && *final(self) == *old(self),
            old(self).height matches Some(h) ==> (old(self).selected != 0 && h < 3 ==> r
                == Result::<(), TextListError>::Err(TextListError::NotEnoughHeight) && *final(self)
                == *old(self)),
            old(self).height matches Some(h) ==> (old(self).selected != 0 && h >= 3 ==> ({
                let (sel2, scr2) = pageup_target(old(self).selected, old(self).scroll, (h - 2) as u16);
                &&& final(self).selected == sel2
                &&& final(self).scroll == scroll_after_update(scr2 as usize, sel2 as usize, (h - 2) as u16)
            })),
    {
        let height: u16 = match self.height {
            Some(h) => h,
            None => { return Err(TextListError::UnknownHeight) },
        };
        if self.selected == 0 {
            return Ok(());
        }
        if height < 3 {
            return Err(TextListError::NotEnoughHeight);
        }
        let shift: usize = height as usize - 2;
        if self.selected < shift {
            self.selected = 0;
        } else {
            self.selected = self.selected - shift;
            if self.scroll > shift {
                self.scroll = self.scroll - shift;
            } else {
                self.scroll = 0;
            }
        }
        self.update()
    }

    /// Go down by one window of items, keeping the cursor's place on screen.
    pub fn pagedown(&mut self) -> (r: Result<(), TextListError>)
        ensures
            final(self).same_but_position(*old(self)),
            old(self).items@.len() == 0 ==> r is Ok && *final(self) == *old(self),
            old(self).items@.len() > 0 && old(self).height is None ==> r == Result::<
                (),
                TextListError,
            >::Err(TextListError::UnknownHeight) && *final(self) == *old(self),
            old(self).items@.len() > 0 && old(self).height is Some && old(self).selected >= old(self).items@.len() - 1 ==> r is Ok && *final(self) == *old(self),
            old(self).height matches Some(h) ==> (old(self).items@.len() > 0 && old(self).selected
                < old(self).items@.len() - 1 && h < 3 ==> r == Result::<(), TextListError>::Err(
                TextListError::NotEnoughHeight,
            ) && *final(self) == *old(self)),
            old(self).height matches Some(h) ==> (old(self).items@.len() > 0 && old(self).selected
                < old(self).items@.len() - 1 && h >= 3 ==> ({
                let (sel2, scr2) = pagedown_target(
                    old(self).selected,
                    old(self).scroll,
                    old(self).items@.len() as int,
                    h,
                );
                &&& r is Ok
                &&& final(self).selected == sel2
                &&& final(self).scroll == scroll_after_update(scr2 as usize, sel2 as usize, (h - 2) as u16)
            })),
    {
        if self.items.len() == 0 {
            return Ok(());
        }
        let height: u16 = match self.height {
            Some(h) => h,
            None => { return Err(TextListError::UnknownHeight) },
        };
        let last: usize = self.items.len() - 1;
        if self.selected >= last {
            return Ok(());
        }
        if height < 3 {
            return Err(TextListError::NotEnoughHeight);
        }
        let shift: usize = height as usize - 2;
        if shift > last - self.selected {
            self.selected = last;
        } else {
            self.selected = self.selected + shift;
            let len: usize = self.items.len();
            if self.scroll < len && len - self.scroll > 2 * shift {
                self.scroll = self.scroll + shift;
            } else if len >= height as usize - 1 {
                self.scroll = len - (height as usize - 1);
            } else {
                self.scroll = 0;
            }
        }
        self.update()
    }
}

/// `s` with every non-ASCII character replaced by `rep`.
pub open spec fn ascii_replaced(s: Seq<char>, rep: char) -> Seq<char> {
    s.map_values(
        |c: char|
            if (c as u32) <= 127 {
                c
            } else {
                rep
            },
    )
}

/// A line cut down to `width - 2` cells: when it has more clusters than
/// that, it is shortened to make room for the trim suffix, which is then
/// appended.
pub open spec fn trimmed(shown: Seq<char>, width: u16, trim: TrimType) -> Seq<char>
    recommends
        width >= 2 + trim_suffix(trim).len(),
{
    let gs = graphemes_of(shown);
    if gs.len() > width - 2 {
        gs.subrange(0, width - 2 - trim_suffix(trim).len()).flatten() + trim_suffix(trim)
    } else {
        shown
    }
}

/// One item as displayed: non-ASCII characters replaced when asked, then
/// cut down to the available width.
pub open spec fn line_display(
    item: Seq<char>,
    ascii_only: bool,
    rep: char,
    width: u16,
    trim: TrimType,
) -> Seq<char> {
    let shown = if ascii_only {
        ascii_replaced(item, rep)
    } else {
        item
    };
    trimmed(shown, width, trim)
}

/// `s` with every non-ASCII character replaced by `rep`.
fn replace_non_ascii(s: &str, rep: char) -> (r: String)
    ensures
        r@ == ascii_replaced(s@, rep),
{
    let mut out: String = String::new();
    proof {
        assert(ascii_replaced(s@.take(0), rep) =~= Seq::<char>::empty());
    }
    for c in it: s.chars()
        invariant
            it.seq() == s@,
            out@ == ascii_replaced(s@.take(it.index() as int), rep),
    {
        let kept: char = if (c as u32) <= 127 {
            c
        } else {
            rep
        };
        crate::widgets::textfield::push_char(&mut out, kept);
        proof {
            assert(ascii_replaced(s@.take(it.index() + 1), rep) =~= ascii_replaced(
                s@.take(it.index() as int),
                rep,
            ).push(if (s@[it.index() as int] as u32) <= 127 {
                s@[it.index() as int]
            } else {
                rep
            }));
        }
    }
    proof {
        assert(s@.take(s@.len() as int) =~= s@);
    }
    out
}

/// Cut one already-substituted line down to the width.
fn trim_line(shown: String, width: u16, trim: TrimType) -> (r: String)
    requires
        width >= 2 + trim_suffix(trim).len(),
    ensures
        r@ == trimmed(shown@, width, trim),
{
    let clusters = grapheme_split(shown.as_str());
    let width_from: usize = width as usize - 2;
    if clusters.len() > width_from {
        let keep: usize = match trim {
            TrimType::ShortTripleDot => width_from - 1,
            TrimType::FullTripleDot => width_from - 3,
            TrimType::NoTrim => width_from,
        };
        let head = concat_clusters(&clusters, 0, keep);
        let out = match trim {
            TrimType::ShortTripleDot => head.concat("\u{2026}"),
            TrimType::FullTripleDot => head.concat("..."),
            TrimType::NoTrim => head,
        };
        proof {
            reveal_strlit("\u{2026}");
            reveal_strlit("...");
            assert(out@ =~= trimmed(shown@, width, trim));
        }
        out
    } else {
        shown
    }
}

impl TextList {
    /// How many items are visible: the window holds `h - 2` rows starting
    /// at `scroll`, cut off at the end of the list.
    pub open spec fn visible_count(items_len: int, scroll: usize, h: u16) -> int
        recommends
            h >= 3,
    {
        let start = if scroll <= items_len {
            scroll as int
        } else {
            items_len
        };
        if items_len - start <= h - 2 {
            items_len - start
        } else {
            h - 2
        }
    }

    /// The lines to paint, one for each visible item, each cut to `width`
    /// cells as `line_display` describes.
    ///
    /// Fails with `UnknownHeight` when no height was declared; a height
    /// below three rows yields no lines at all.
    pub fn render_lines(&self, width: u16) -> (r: Result<Vec<String>, TextListError>)
        requires
            width >= 2 + trim_suffix(self.trim_type).len(),
        ensures
            r is Ok <==> self.height is Some,
            self.height is None ==> r == Result::<Vec<String>, TextListError>::Err(
                TextListError::UnknownHeight,
            ),
            self.height matches Some(h) ==> (h < 3 ==> (r matches Ok(lines) && lines@.len() == 0)),
            self.height matches Some(h) ==> (h >= 3 ==> (r matches Ok(lines) && ({
                let start = if self.scroll <= self.items@.len() {
                    self.scroll as int
                } else {
                    self.items@.len() as int
                };
                &&& lines@.len() == Self::visible_count(self.items@.len() as int, self.scroll, h)
                &&& forall|j: int|
                    0 <= j < lines@.len() ==> lines@[j]@ == line_display(
                        self.items@[start + j]@,
                        self.ascii_only,
                        self.non_ascii_replace,
                        width,
                        self.trim_type,
                    )
            }))),
    {
        let height: u16 = match self.height {
            Some(h) => h,
            None => { return Err(TextListError::UnknownHeight) },
        };
        let mut lines: Vec<String> = Vec::new();
        if height < 3 {
            return Ok(lines);
        }
        let take_n: usize = height as usize - 2;
        let len: usize = self.items.len();
        let start: usize = if self.scroll <= len {
            self.scroll
        } else {
            len
        };
        let end: usize = if len - start <= take_n {
            len
        } else {
            start + take_n
        };
        let mut i: usize = start;
        while i < end
            invariant
                start <= i <= end <= len,
                len == self.items@.len(),
                end - start == Self::visible_count(len as int, self.scroll, height),
                start == if self.scroll <= len {
                    self.scroll as int
                } else {
                    len as int
                },
                height >= 3,
                width >= 2 + trim_suffix(self.trim_type).len(),
                lines@.len() == i - start,
                forall|j: int|
                    0 <= j < lines@.len() ==> lines@[j]@ == line_display(
                        self.items@[start + j]@,
                        self.ascii_only,
                        self.non_ascii_replace,
                        width,
                        self.trim_type,
                    ),
            decreases end - i,
        {
            let shown: String = if self.ascii_only {
                replace_non_ascii(self.items[i].as_str(), self.non_ascii_replace)
            } else {
                self.items[i].clone()
            };
            let line = trim_line(shown, width, self.trim_type);
            lines.push(line);
            i = i + 1;
        }
        Ok(lines)
    }
}


/// Setters: `name(self, v)` takes ownership and hands the list back, for
/// chaining; `set_name(&mut self, v)` works in place.
impl TextList {
    pub fn ascii_only(self, ascii_only: bool) -> (r: Self)
        ensures
            r == (TextList { ascii_only, ..self }),
    {
        let mut out = self;
        out.set_ascii_only(ascii_only);
        out
    }

    pub fn set_ascii_only(&mut self, ascii_only: bool)
        ensures
            *final(self) == (TextList { ascii_only, ..*old(self) }),
    {
        self.ascii_only = ascii_only;
    }

    pub fn border_type(self, border_type: BorderType) -> (r: Self)
        ensures
            r == (TextList { border_type, ..self }),
    {
        let mut out = self;
        out.set_border_type(border_type);
        out
    }

    pub fn set_border_type(&mut self, border_type: BorderType)
        ensures
            *final(self) == (TextList { border_type, ..*old(self) }),
    {
        self.border_type = border_type;
    }

    pub fn cursor_style(self, cursor_style: Style) -> (r: Self)
        ensures
            r == (TextList { cursor_style, ..self }),
    {
        let mut out = self;
        out.set_cursor_style(cursor_style);
        out
    }

    pub fn set_cursor_style(&mut self, cursor_style: Style)
        ensures
            *final(self) == (TextList { cursor_style, ..*old(self) }),
    {
        self.cursor_style = cursor_style;
    }

    pub fn height(self, height: u16) -> (r: Self)
        ensures
            r == (TextList { height: Some(height), ..self }),
    {
        let mut out = self;
        out.set_height(height);
        out
    }

    pub fn set_height(&mut self, height: u16)
        ensures
            *final(self) == (TextList { height: Some(height), ..*old(self) }),
    {
        self.height = Some(height);
    }

    /// Replace the items and hand the list back; with a height already
    /// declared the scroll window is re-aligned, which may fail.
    pub fn items(self, items: &Vec<String>) -> (r: Result<Self, TextListError>)
        ensures
            r matches Ok(l) ==> l.items@ == items@ && l.selected == self.selected && l.height
                == self.height && l.style == self.style && l.cursor_style == self.cursor_style
                && l.selected_style == self.selected_style && l.border_type == self.border_type
                && l.ascii_only == self.ascii_only && l.non_ascii_replace
                == self.non_ascii_replace && l.trim_type == self.trim_type,
            self.height is None ==> r is Ok,
            self.height matches Some(h) ==> (r is Err ==> h < 3),
    {
        let mut out = self;
        match out.set_items(items) {
            Ok(()) => Ok(out),
            Err(e) => Err(e),
        }
    }

    /// Replace the items; with a height already declared the scroll window
    /// is re-aligned, which may fail. The items are stored even then.
    pub fn set_items(&mut self, items: &Vec<String>) -> (r: Result<(), TextListError>)
        ensures
            final(self).items@ == items@,
            final(self).selected == old(self).selected,
            final(self).style == old(self).style && final(self).cursor_style == old(self).cursor_style && final(self).selected_style == old(self).selected_style && final(self).border_type == old(self).border_type && final(self).height == old(self).height
                && final(self).ascii_only == old(self).ascii_only && final(self).non_ascii_replace
                == old(self).non_ascii_replace && final(self).trim_type == old(self).trim_type,
            old(self).height is None ==> r is Ok && final(self).scroll == old(self).scroll,
            old(self).height matches Some(h) ==> (r is Ok <==> h >= 3),
            r is Err ==> r == Result::<(), TextListError>::Err(TextListError::NotEnoughHeight)
                && final(self).scroll == old(self).scroll,
    {
        let mut copied: Vec<String> = Vec::new();
        let mut i: usize = 0;
        while i < items.len()
            invariant
                0 <= i <= items@.len(),
                copied@ == items@.take(i as int),
            decreases items@.len() - i,
        {
            copied.push(items[i].clone());
            proof {
                assert(copied@ =~= items@.take(i + 1));
            }
            i = i + 1;
        }
        proof {
            assert(items@.take(items@.len() as int) =~= items@);
        }
        self.items = copied;
        if self.height.is_some() {
            return self.update();
        }
        Ok(())
    }

    /// Move the selection to `index` and hand the list back; the scroll
    /// window is re-aligned, which needs a usable height.
    pub fn selected(self, index: usize) -> (r: Result<Self, TextListError>)
        ensures
            r matches Ok(l) ==> l.selected == index && l.same_but_position(self),
            r is Ok <==> (self.height matches Some(h) && h >= 3),
    {
        let mut out = self;
        match out.set_selected(index) {
            Ok(()) => Ok(out),
            Err(e) => Err(e),
        }
    }

    /// Move the selection to `index`; the scroll window is re-aligned,
    /// which needs a usable height. The selection is moved even when the
    /// re-alignment fails.
    pub fn set_selected(&mut self, index: usize) -> (r: Result<(), TextListError>)
        ensures
            final(self).same_but_position(*old(self)),
            final(self).selected == index,
            r is Ok <==> (old(self).height matches Some(h) && h >= 3),
            old(self).height matches Some(h) ==> (h >= 3 ==> final(self).scroll
                == scroll_after_update(old(self).scroll, index, (h - 2) as u16)),
    {
        self.selected = index;
        self.update()
    }

    pub fn non_ascii_replace(self, non_ascii_replace: char) -> (r: Self)
        ensures
            r == (TextList { non_ascii_replace, ..self }),
    {
        let mut out = self;
        out.set_non_ascii_replace(non_ascii_replace);
        out
    }

    pub fn set_non_ascii_replace(&mut self, non_ascii_replace: char)
        ensures
            *final(self) == (TextList { non_ascii_replace, ..*old(self) }),
    {
        self.non_ascii_replace = non_ascii_replace;
    }

    pub fn selected_style(self, selected_style: Style) -> (r: Self)
        ensures
            r == (TextList { selected_style, ..self }),
    {
        let mut out = self;
        out.set_selected_style(selected_style);
        out
    }

    pub fn set_selected_style(&mut self, selected_style: Style)
        ensures
            *final(self) == (TextList { selected_style, ..*old(self) }),
    {
        self.selected_style = selected_style;
    }

    pub fn style(self, style: Style) -> (r: Self)
        ensures
            r == (TextList { style, ..self }),
    {
        let mut out = self;
        out.set_style(style);
        out
    }

    pub fn set_style(&mut self, style: Style)
        ensures
            *final(self) == (TextList { style, ..*old(self) }),
    {
        self.style = style;
    }

    pub fn trim_type(self, trim_type: TrimType) -> (r: Self)
        ensures
            r == (TextList { trim_type, ..self }),
    {
        let mut out = self;
        out.set_trim_type(trim_type);
        out
    }

    pub fn set_trim_type(&mut self, trim_type: TrimType)
        ensures
            *final(self) == (TextList { trim_type, ..*old(self) }),
    {
        self.trim_type = trim_type;
    }
}


} // verus!
