use vstd::prelude::*;
use crate::graphemes::{concat_clusters, grapheme_count, grapheme_split, graphemes_of};
use crate::style::{Color, Style};

verus! {

/// Errors returned by the text field.
#[derive(Clone, Copy, Debug, PartialEq, Eq, Structural)]
pub enum TextFieldError {
    /// `width` has not been set, so scrolling cannot be resolved.
    UnknownWidth,
}

/// A single-line editable text field.
///
/// `cursor` and `scroll` count grapheme clusters, not bytes: one arrow-key
/// step moves over a whole cluster. The field must be told its width with
/// `set_width` before anything that resolves scrolling.
#[derive(Debug)]
pub struct TextField {
    /// The text being edited.
    pub content: String,
    /// How many clusters are scrolled out to the left.
    pub scroll: usize,
    /// The cluster the cursor sits on; equal to the cluster count when the
    /// cursor is at the end of the text.
    pub cursor: usize,
    /// Style of the whole field.
    pub style: Style,
    /// Style of the text.
    pub text_style: Style,
    /// Style of the cluster under the cursor.
    pub cursor_style: Style,
    /// Width available to the field, in cells.
    pub width: Option<u16>,
}

impl Clone for TextField {
    fn clone(&self) -> (r: Self)
        ensures
            r == *self,
    {
        TextField {
            content: self.content.clone(),
            scroll: self.scroll,
            cursor: self.cursor,
            style: self.style,
            text_style: self.text_style,
            cursor_style: self.cursor_style,
            width: self.width,
        }
    }
}

impl Default for TextField {
    fn default() -> (r: Self)
        ensures
            r.content@ == Seq::<char>::empty(),
            r.scroll == 0,
            r.cursor == 0,
            r.style == Style::plain(),
            r.text_style == Style::plain(),
            r.cursor_style == (Style { bg: Some(Color::Gray), ..Style::plain() }),
            r.width is None,
    {
        TextField {
            content: String::new(),
            scroll: 0,
            cursor: 0,
            style: Style::new(),
            text_style: Style::new(),
            cursor_style: Style::new().bg(Color::Gray),
            width: None,
        }
    }
}

/// The scroll position after re-aligning the window of width `w` so that the
/// cursor is inside it: scrolled left to the cursor when the cursor moved
/// out on the left, right to keep it on the last visible cell when it moved
/// out on the right.
pub open spec fn scroll_after_update(scroll: usize, cursor: usize, w: u16) -> int
    recommends
        w >= 1,
{
    if scroll > cursor {
        cursor as int
    } else if scroll + w <= cursor {
        cursor - w + 1
    } else {
        scroll as int
    }
}

/// The cursor after being capped to the number of clusters in `content`.
pub open spec fn cursor_after_update(content: Seq<char>, cursor: usize) -> int {
    if cursor <= graphemes_of(content).len() {
        cursor as int
    } else {
        graphemes_of(content).len() as int
    }
}

/// The text after inserting character `c` before cluster `index`; an index
/// past the end appends.
pub open spec fn content_after_insert(s: Seq<char>, index: usize, c: char) -> Seq<char> {
    let gs = graphemes_of(s);
    let i = if index <= gs.len() {
        index as int
    } else {
        gs.len() as int
    };
    gs.subrange(0, i).flatten() + seq![c] + gs.subrange(i, gs.len() as int).flatten()
}

/// The text after removing the cluster before position `index`; nothing is
/// removed when no such cluster exists.
pub open spec fn content_after_remove(s: Seq<char>, index: usize) -> Seq<char> {
    let gs = graphemes_of(s);
    if 1 <= index <= gs.len() {
        gs.subrange(0, index - 1).flatten() + gs.subrange(index as int, gs.len() as int).flatten()
    } else {
        s
    }
}

impl TextField {
    /// Whether the removal position addresses an existing cluster.
    pub open spec fn remove_in_range(s: Seq<char>, index: usize) -> bool {
        1 <= index <= graphemes_of(s).len()
    }

    /// Insert character `c` before cluster `index` and advance the cursor.
    ///
    /// The content and cursor are updated even when the missing width then
    /// makes the scroll update fail with `UnknownWidth`.
    pub fn insert(&mut self, index: usize, c: char) -> (r: Result<(), TextFieldError>)
        requires
            old(self).cursor < usize::MAX,
            !(old(self).width matches Some(w) && w == 0),
        ensures
            final(self).content@ == content_after_insert(old(self).content@, index, c),
            final(self).style == old(self).style && final(self).text_style == old(self).text_style && final(self).cursor_style == old(self).cursor_style && final(self).width
                == old(self).width,
            r is Ok <==> old(self).width is Some,
            old(self).width is None ==> r == Result::<(), TextFieldError>::Err(
                TextFieldError::UnknownWidth,
            ) && final(self).cursor == old(self).cursor + 1 && final(self).scroll == old(self).scroll,
            old(self).width matches Some(w) ==> ({
                let content2 = content_after_insert(old(self).content@, index, c);
                &&& final(self).scroll == scroll_after_update(
                    old(self).scroll,
                    (old(self).cursor + 1) as usize,
                    w,
                )
                &&& final(self).cursor == cursor_after_update(
                    content2,
                    (old(self).cursor + 1) as usize,
                )
            }),
    {
        let clusters = grapheme_split(self.content.as_str());
        let n: usize = clusters.len();
        let i: usize = if index <= n {
            index
        } else {
            n
        };
        let mut rebuilt = concat_clusters(&clusters, 0, i);
        push_char(&mut rebuilt, c);
        let tail = concat_clusters(&clusters, i, n);
        let rebuilt = rebuilt.concat(tail.as_str());
        proof {
            let gs = graphemes_of(old(self).content@);
            assert(crate::graphemes::cluster_views(clusters@).len() == clusters@.len());
            assert(rebuilt@ =~= content_after_insert(old(self).content@, index, c));
        }
        self.content = rebuilt;
        self.cursor = self.cursor + 1;
        match self.update() {
            Ok(()) => Ok(()),
            Err(e) => Err(e),
        }
    }

    /// Remove the cluster before position `index` and step the cursor back.
    ///
    /// Nothing happens when the cursor is at the start; a position that
    /// addresses no cluster removes nothing and leaves the cursor in place.
    pub fn remove(&mut self, index: usize) -> (r: Result<(), TextFieldError>)
        requires
            !(old(self).width matches Some(w) && w == 0),
        ensures
            old(self).cursor == 0 ==> r is Ok && *final(self) == *old(self),
            final(self).content@ == if old(self).cursor == 0 {
                old(self).content@
            } else {
                content_after_remove(old(self).content@, index)
            },
            final(self).style == old(self).style && final(self).text_style == old(self).text_style && final(self).cursor_style == old(self).cursor_style && final(self).width
                == old(self).width,
            old(self).cursor != 0 ==> (r is Ok <==> old(self).width is Some),
            old(self).cursor != 0 && old(self).width is None ==> r == Result::<
                (),
                TextFieldError,
            >::Err(TextFieldError::UnknownWidth) && final(self).scroll == old(self).scroll && final(self).cursor == cursor_before_scroll(*old(self), index),
            old(self).width matches Some(w) ==> (old(self).cursor != 0 ==> ({
                let content2 = content_after_remove(old(self).content@, index);
                let cursor2 = cursor_before_scroll(*old(self), index);
                &&& final(self).scroll == scroll_after_update(old(self).scroll, cursor2, w)
                &&& final(self).cursor == cursor_after_update(content2, cursor2)
            })),
    {
        if self.cursor == 0 {
            return Ok(());
        }
        let clusters = grapheme_split(self.content.as_str());
        let n: usize = clusters.len();
        if 1 <= index && index <= n {
            let head = concat_clusters(&clusters, 0, index - 1);
            let tail = concat_clusters(&clusters, index, n);
            self.content = head.concat(tail.as_str());
            self.cursor = self.cursor - 1;
        }
        match self.update() {
            Ok(()) => Ok(()),
            Err(e) => Err(e),
        }
    }

    /// Insert a character at the cursor.
    pub fn push(&mut self, c: char) -> (r: Result<(), TextFieldError>)
        requires
            old(self).cursor < usize::MAX,
            !(old(self).width matches Some(w) && w == 0),
        ensures
            final(self).content@ == content_after_insert(old(self).content@, old(self).cursor, c),
            r is Ok <==> old(self).width is Some,
    {
        let at: usize = self.cursor;
        self.insert(at, c)
    }

    /// Remove the cluster before the cursor.
    pub fn pop(&mut self) -> (r: Result<(), TextFieldError>)
        requires
            !(old(self).width matches Some(w) && w == 0),
        ensures
            final(self).content@ == if old(self).cursor == 0 {
                old(self).content@
            } else {
                content_after_remove(old(self).content@, old(self).cursor)
            },
            old(self).cursor == 0 ==> r is Ok && *final(self) == *old(self),
            old(self).cursor != 0 ==> (r is Ok <==> old(self).width is Some),
    {
        let at: usize = self.cursor;
        self.remove(at)
    }

    /// Step the cursor one cluster to the left.
    pub fn left(&mut self) -> (r: Result<(), TextFieldError>)
        requires
            !(old(self).width matches Some(w) && w == 0),
        ensures
            final(self).content == old(self).content,
            old(self).cursor == 0 ==> r is Ok && *final(self) == *old(self),
            old(self).cursor != 0 ==> (r is Ok <==> old(self).width is Some),
            old(self).width matches Some(w) ==> (old(self).cursor != 0 ==> ({
                let cursor2 = (old(self).cursor - 1) as usize;
                &&& final(self).scroll == scroll_after_update(old(self).scroll, cursor2, w)
                &&& final(self).cursor == cursor_after_update(old(self).content@, cursor2)
            })),
    {
        if self.cursor == 0 {
            return Ok(());
        }
        self.cursor = self.cursor - 1;
        self.update()
    }

    /// Step the cursor one cluster to the right, not beyond the end.
    pub fn right(&mut self) -> (r: Result<(), TextFieldError>)
        requires
            old(self).cursor < usize::MAX,
            !(old(self).width matches Some(w) && w == 0),
        ensures
            final(self).content == old(self).content,
            old(self).cursor == graphemes_of(old(self).content@).len() ==> r is Ok && *final(self)
                == *old(self),
            old(self).cursor != graphemes_of(old(self).content@).len() ==> (r is Ok <==> old(self).width is Some),
            old(self).width matches Some(w) ==> (old(self).cursor != graphemes_of(
                old(self).content@,
            ).len() ==> ({
                let cursor2 = (old(self).cursor + 1) as usize;
                &&& final(self).scroll == scroll_after_update(old(self).scroll, cursor2, w)
                &&& final(self).cursor == cursor_after_update(old(self).content@, cursor2)
            })),
    {
        if self.cursor == grapheme_count(self.content.as_str()) {
            return Ok(());
        }
        self.cursor = self.cursor + 1;
        self.update()
    }

    /// Jump to the start of the text.
    pub fn first(&mut self) -> (r: Result<(), TextFieldError>)
        requires
            !(old(self).width matches Some(w) && w == 0),
        ensures
            final(self).content == old(self).content,
            r is Ok <==> old(self).width is Some,
            old(self).width matches Some(w) ==> final(self).cursor == 0 && final(self).scroll
                == 0,
    {
        self.cursor = 0;
        self.update()
    }

    /// Jump to the end of the text.
    pub fn last(&mut self) -> (r: Result<(), TextFieldError>)
        requires
            !(old(self).width matches Some(w) && w == 0),
        ensures
            final(self).content == old(self).content,
            r is Ok <==> old(self).width is Some,
            old(self).width matches Some(w) ==> ({
                let cursor2 = graphemes_of(old(self).content@).len();
                &&& final(self).cursor == cursor2
                &&& final(self).scroll == scroll_after_update(
                    old(self).scroll,
                    cursor2 as usize,
                    w,
                )
            }),
    {
        self.cursor = grapheme_count(self.content.as_str());
        self.update()
    }
}

/// The cursor of `tf` after a removal at `index`, before scrolling: stepped
/// back by one when a cluster was removed.
pub open spec fn cursor_before_scroll(tf: TextField, index: usize) -> usize {
    if TextField::remove_in_range(tf.content@, index) {
        (tf.cursor - 1) as usize
    } else {
        tf.cursor
    }
}

impl TextField {
    /// Declare the width available to the field.
    pub fn set_width(&mut self, width: u16)
        ensures
            *final(self) == (TextField { width: Some(width), ..*old(self) }),
    {
        self.width = Some(width);
    }

    /// Re-align the scroll window around the cursor and cap the cursor to
    /// the cluster count. Fails with `UnknownWidth` when no width is set.
    pub fn update(&mut self) -> (r: Result<(), TextFieldError>)
        requires
            !(old(self).width matches Some(w) && w == 0),
        ensures
            final(self).content == old(self).content && final(self).style == old(self).style
                && final(self).text_style == old(self).text_style && final(self).cursor_style
                == old(self).cursor_style && final(self).width == old(self).width,
            r is Ok <==> old(self).width is Some,
            old(self).width is None ==> r == Result::<(), TextFieldError>::Err(
                TextFieldError::UnknownWidth,
            ) && *final(self) == *old(self),
            old(self).width matches Some(w) ==> final(self).scroll == scroll_after_update(
                old(self).scroll,
                old(self).cursor,
                w,
            ) && final(self).cursor == cursor_after_update(old(self).content@, old(self).cursor),
    {
        let width: u16 = match self.width {
            Some(width) => width,
            None => { return Err(TextFieldError::UnknownWidth) },
        };
        if self.scroll > self.cursor {
            self.scroll = self.cursor;
        } else if width as usize <= self.cursor - self.scroll {
            self.scroll = self.cursor - width as usize + 1;
        }
        let len: usize = grapheme_count(self.content.as_str());
        if self.cursor > len {
            self.cursor = len;
        }
        Ok(())
    }
}

/// The text to the left of the cursor's visible window start.
pub open spec fn part_before(s: Seq<char>, scroll: usize, cursor: usize) -> Seq<char> {
    let gs = graphemes_of(s);
    let lo = if scroll <= gs.len() {
        scroll as int
    } else {
        gs.len() as int
    };
    let hi = if cursor <= gs.len() {
        cursor as int
    } else {
        gs.len() as int
    };
    if lo <= hi {
        gs.subrange(lo, hi).flatten()
    } else {
        Seq::<char>::empty()
    }
}

/// The cluster shown under the cursor: the addressed cluster, or a single
/// space when the cursor sits at the end of the text.
pub open spec fn part_at(s: Seq<char>, cursor: usize) -> Seq<char> {
    let gs = graphemes_of(s);
    if cursor == gs.len() {
        seq![' ']
    } else if cursor < gs.len() {
        gs[cursor as int]
    } else {
        Seq::<char>::empty()
    }
}

/// The text to the right of the cursor.
pub open spec fn part_after(s: Seq<char>, cursor: usize) -> Seq<char> {
    let gs = graphemes_of(s);
    if cursor < gs.len() {
        gs.subrange(cursor + 1, gs.len() as int).flatten()
    } else {
        Seq::<char>::empty()
    }
}

impl TextField {
    /// The three pieces of text a painter needs: what stands between the
    /// scroll position and the cursor, the cluster under the cursor, and
    /// what follows it. The first two carry `text_style` and `cursor_style`
    /// respectively; painting itself happens outside this crate.
    ///
    /// Fails with `UnknownWidth` when no width has been declared.
    pub fn render_parts(&self) -> (r: Result<(String, String, String), TextFieldError>)
        ensures
            r is Ok <==> self.width is Some,
            self.width is None ==> r == Result::<(String, String, String), TextFieldError>::Err(
                TextFieldError::UnknownWidth,
            ),
            r matches Ok(parts) ==> parts.0@ == part_before(self.content@, self.scroll, self.cursor)
                && parts.1@ == part_at(self.content@, self.cursor) && parts.2@ == part_after(
                self.content@,
                self.cursor,
            ),
    {
        if self.width.is_none() {
            return Err(TextFieldError::UnknownWidth);
        }
        let clusters = grapheme_split(self.content.as_str());
        let n: usize = clusters.len();
        let lo: usize = if self.scroll <= n {
            self.scroll
        } else {
            n
        };
        let hi: usize = if self.cursor <= n {
            self.cursor
        } else {
            n
        };
        let before: String = if lo <= hi {
            concat_clusters(&clusters, lo, hi)
        } else {
            String::new()
        };
        let at: String = if self.cursor == n {
            let space = space_string();
            space
        } else if self.cursor < n {
            clusters[self.cursor].clone()
        } else {
            String::new()
        };
        let after: String = if self.cursor < n {
            concat_clusters(&clusters, self.cursor + 1, n)
        } else {
            String::new()
        };
        Ok((before, at, after))
    }
}

/// One space, for the cursor cell at the end of the text.
fn space_string() -> (r: String)
    ensures
        r@ == seq![' '],
{
    let s = String::from_str(" ");
    proof {
        reveal_strlit(" ");
        assert(s@ =~= seq![' ']);
    }
    s
}


/// Relies on `String::push` of std: appends exactly the one character.
#[verifier::external_body]
pub(crate) fn push_char(s: &mut String, c: char)
    ensures
        final(s)@ == old(s)@.push(c),
{
    s.push(c);
}

} // verus!
