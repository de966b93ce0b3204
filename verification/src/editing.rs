use crate::session::{Key, VISIBLE_HEIGHT};
use crate::text::{char_len, insert_char, remove_char};
use vstd::prelude::*;
use vstd::string::*;

verus! {

/// The last place of a list of `len` items; 0 for an empty list.
pub open spec fn last_place(len: int) -> int {
    if len > 0 {
        len - 1
    } else {
        0
    }
}

/// Cursor and scroll offset after a step up.
pub open spec fn stepped_up(cursor: int, scroll: int) -> (int, int) {
    if cursor > 0 {
        (cursor - 1, if cursor - 1 < scroll { cursor - 1 } else { scroll })
    } else {
        (cursor, scroll)
    }
}

/// The scroll offset that shows `cursor` after it moved down.
pub open spec fn scrolled_to(cursor: int, scroll: int) -> int {
    if cursor >= scroll + VISIBLE_HEIGHT {
        cursor - VISIBLE_HEIGHT + 1
    } else {
        scroll
    }
}

/// Cursor and scroll offset after a step down in a list of `len` items.
pub open spec fn stepped_down(cursor: int, scroll: int, len: int) -> (int, int) {
    if cursor < last_place(len) {
        (cursor + 1, scrolled_to(cursor + 1, scroll))
    } else {
        (cursor, scroll)
    }
}

/// Cursor and scroll offset after a page up.
pub open spec fn paged_up(cursor: int, scroll: int) -> (int, int) {
    (
        if cursor >= VISIBLE_HEIGHT { cursor - VISIBLE_HEIGHT } else { 0 },
        if scroll >= VISIBLE_HEIGHT { scroll - VISIBLE_HEIGHT } else { 0 },
    )
}

/// Cursor and scroll offset after a page down in a list of `len` items.
pub open spec fn paged_down(cursor: int, scroll: int, len: int) -> (int, int) {
    let target = if cursor + VISIBLE_HEIGHT < last_place(len) {
        cursor + VISIBLE_HEIGHT
    } else {
        last_place(len)
    };
    (target, scrolled_to(target, scroll))
}

/// Cursor and scroll offset after a jump to the end of a list of `len` items.
pub open spec fn jumped_to_end(scroll: int, len: int) -> (int, int) {
    let target = last_place(len);
    (target, if target >= VISIBLE_HEIGHT { target - VISIBLE_HEIGHT + 1 } else { scroll })
}

/// Moves a list cursor one place up and keeps it in view.
pub fn step_up(cursor: usize, scroll: usize) -> (r: (usize, usize))
    ensures
        (r.0 as int, r.1 as int) == stepped_up(cursor as int, scroll as int),
{
    if cursor > 0 {
        let c: usize = cursor - 1;
        (c, if c < scroll { c } else { scroll })
    } else {
        (cursor, scroll)
    }
}

/// The scroll offset that shows `cursor` after it moved down.
pub fn scroll_to(cursor: usize, scroll: usize) -> (r: usize)
    ensures
        r as int == scrolled_to(cursor as int, scroll as int),
{
    if cursor >= scroll && cursor - scroll >= VISIBLE_HEIGHT {
        cursor - VISIBLE_HEIGHT + 1
    } else {
        scroll
    }
}

/// Moves a list cursor one place down and keeps it in view.
pub fn step_down(cursor: usize, scroll: usize, len: usize) -> (r: (usize, usize))
    ensures
        (r.0 as int, r.1 as int) == stepped_down(cursor as int, scroll as int, len as int),
{
    if len > 0 && cursor < len - 1 {
        let c: usize = cursor + 1;
        (c, scroll_to(c, scroll))
    } else {
        (cursor, scroll)
    }
}

/// Moves a list cursor a page up.
pub fn page_up(cursor: usize, scroll: usize) -> (r: (usize, usize))
    ensures
        (r.0 as int, r.1 as int) == paged_up(cursor as int, scroll as int),
{
    (
        if cursor >= VISIBLE_HEIGHT { cursor - VISIBLE_HEIGHT } else { 0 },
        if scroll >= VISIBLE_HEIGHT { scroll - VISIBLE_HEIGHT } else { 0 },
    )
}

/// Moves a list cursor a page down and keeps it in view.
pub fn page_down(cursor: usize, scroll: usize, len: usize) -> (r: (usize, usize))
    ensures
        (r.0 as int, r.1 as int) == paged_down(cursor as int, scroll as int, len as int),
{
    let last: usize = if len > 0 { len - 1 } else { 0 };
    let target: usize = if cursor < last && last - cursor > VISIBLE_HEIGHT {
        cursor + VISIBLE_HEIGHT
    } else {
        last
    };
    (target, scroll_to(target, scroll))
}

/// Moves a list cursor to the last item.
pub fn jump_to_end(scroll: usize, len: usize) -> (r: (usize, usize))
    ensures
        (r.0 as int, r.1 as int) == jumped_to_end(scroll as int, len as int),
{
    let target: usize = if len > 0 { len - 1 } else { 0 };
    (target, if target >= VISIBLE_HEIGHT { target - VISIBLE_HEIGHT + 1 } else { scroll })
}

/// A line of text and its cursor after an editing key; other keys leave both
/// as they are.
pub open spec fn edited(text: Seq<char>, cursor: int, key: Key) -> (Seq<char>, int) {
    match key {
        Key::Char(c) => (text.insert(cursor, c), cursor + 1),
        Key::Backspace => if cursor > 0 {
            (text.remove(cursor - 1), cursor - 1)
        } else {
            (text, cursor)
        },
        Key::Delete => if cursor < text.len() {
            (text.remove(cursor), cursor)
        } else {
            (text, cursor)
        },
        Key::Left => (text, if cursor > 0 { cursor - 1 } else { 0 }),
        Key::Right => (text, if cursor < text.len() { cursor + 1 } else { cursor }),
        Key::Home => (text, 0),
        Key::End => (text, text.len() as int),
        _ => (text, cursor),
    }
}

/// Applies an editing key to a line of text and gives the new place of the
/// cursor.
pub fn edit_line(text: &mut String, cursor: usize, key: Key) -> (c: usize)
    requires
        cursor <= old(text)@.len(),
    ensures
        (final(text)@, c as int) == edited(old(text)@, cursor as int, key),
        c <= final(text)@.len(),
{
    match key {
        Key::Char(ch) => {
            insert_char(text, cursor, ch);
            cursor + 1
        },
        Key::Backspace => {
            if cursor > 0 {
                remove_char(text, cursor - 1);
                cursor - 1
            } else {
                cursor
            }
        },
        Key::Delete => {
            if cursor < char_len(text.as_str()) {
                remove_char(text, cursor);
            }
            cursor
        },
        Key::Left => if cursor > 0 {
            cursor - 1
        } else {
            0
        },
        Key::Right => if cursor < char_len(text.as_str()) {
            cursor + 1
        } else {
            cursor
        },
        Key::Home => 0,
        Key::End => char_len(text.as_str()),
        _ => cursor,
    }
}

} // verus!
