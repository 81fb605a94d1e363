//! Text fields of the settings forms: cursor movement, editing, pasting.
use vstd::prelude::*;
use vstd::utf8::is_char_boundary;
use crate::field::{byte_len, bytes_of, insert_char, next_boundary, next_start, previous_boundary, previous_start, remove_range, slice_chars, utf8_len, grapheme_starts};
use crate::text::{chars_of, owned, same_text};
use crate::tiles::is_control;
use super::{form_ok, KeyCode, KeyPress};

verus! {

broadcast use vstd::utf8::group_utf8_lib;

/// The longest field value, in bytes.
pub const FIELD_LIMIT: usize = 512;

/// The accent colors, in the order that Left and Right cycle through.
pub open spec fn accent_colors() -> Seq<Seq<char>> {
    seq!["cyan"@, "magenta"@, "green"@, "yellow"@, "blue"@, "red"@, "white"@]
}

/// The position of a color in the cycle, the first when it is not a color.
pub open spec fn color_position(value: Seq<char>) -> int {
    if value == accent_colors()[0] { 0 }
    else if value == accent_colors()[1] { 1 }
    else if value == accent_colors()[2] { 2 }
    else if value == accent_colors()[3] { 3 }
    else if value == accent_colors()[4] { 4 }
    else if value == accent_colors()[5] { 5 }
    else if value == accent_colors()[6] { 6 }
    else { 0 }
}

/// The values of a form's fields.
pub open spec fn values(fields: Seq<(String, String)>) -> Seq<Seq<char>> {
    fields.map_values(|f: (String, String)| f.1@)
}

/// The labels of a form's fields.
pub open spec fn labels(fields: Seq<(String, String)>) -> Seq<Seq<char>> {
    fields.map_values(|f: (String, String)| f.0@)
}

/// `value` with `c` inserted at byte offset `at`.
pub open spec fn inserted(value: Seq<char>, at: int, c: char) -> Seq<char> {
    slice_chars(value, 0, at) + seq![c] + slice_chars(value, at, bytes_of(value).len() as int)
}

/// `value` without the bytes from `from` to `to`.
pub open spec fn removed(value: Seq<char>, from: int, to: int) -> Seq<char> {
    slice_chars(value, 0, from) + slice_chars(value, to, bytes_of(value).len() as int)
}

/// The effect of a key on a form's values, selected field and cursor. `accent` makes
/// Left and Right on the second field cycle through the accent colors.
pub open spec fn field_edit(
    values: Seq<Seq<char>>,
    selected: usize,
    cursor: usize,
    key: KeyPress,
    accent: bool,
) -> (Seq<Seq<char>>, usize, usize) {
    let n = values.len();
    let v = values[selected as int];
    let end = bytes_of(v).len() as usize;
    match key.code {
        KeyCode::Tab | KeyCode::Down => {
            let s = if selected + 1 < n { (selected + 1) as usize } else { 0 };
            (values, s, bytes_of(values[s as int]).len() as usize)
        },
        KeyCode::BackTab | KeyCode::Up => {
            let s = if selected == 0 { (n - 1) as usize } else { (selected - 1) as usize };
            (values, s, bytes_of(values[s as int]).len() as usize)
        },
        KeyCode::Char(c) => if key.control && c == 'u' {
            (values.update(selected as int, Seq::empty()), selected, 0)
        } else if !key.control && !key.alt && !is_control(c) && end + bytes_of(seq![c]).len() <= FIELD_LIMIT {
            (values.update(selected as int, inserted(v, cursor as int, c)), selected, (cursor + bytes_of(seq![c]).len()) as usize)
        } else {
            (values, selected, cursor)
        },
        KeyCode::Home => (values, selected, 0),
        KeyCode::End => (values, selected, end),
        KeyCode::Left | KeyCode::Right => if accent && selected == 1 {
            let current = color_position(v);
            let next = if key.code == KeyCode::Right {
                if current + 1 < 7 { current + 1 } else { 0 }
            } else {
                if current == 0 { 6 } else { current - 1 }
            };
            let color = accent_colors()[next];
            (values.update(1, color), selected, bytes_of(color).len() as usize)
        } else if key.code == KeyCode::Left {
            (values, selected, previous_start(grapheme_starts(v), cursor))
        } else {
            (values, selected, next_start(grapheme_starts(v), cursor, end))
        },
        KeyCode::Backspace => {
            let p = previous_start(grapheme_starts(v), cursor);
            (values.update(selected as int, removed(v, p as int, cursor as int)), selected, p)
        },
        KeyCode::Delete => {
            let q = next_start(grapheme_starts(v), cursor, end);
            (values.update(selected as int, removed(v, cursor as int, q as int)), selected, cursor)
        },
        _ => (values, selected, cursor),
    }
}

/// Replaces the value of field `i`.
pub fn set_value(fields: &mut Vec<(String, String)>, i: usize, value: String)
    requires
        i < old(fields)@.len(),
    ensures
        values(final(fields)@) == values(old(fields)@).update(i as int, value@),
        labels(final(fields)@) == labels(old(fields)@),
        final(fields)@.len() == old(fields)@.len(),
        final(fields)@[i as int].1@ == value@,
{
    let (label, _) = fields.remove(i);
    fields.insert(i, (label, value));
    assert(values(fields@) =~= values(old(fields)@).update(i as int, value@));
    assert(labels(fields@) =~= labels(old(fields)@));
}

/// The color after (or before) a value in the accent cycle.
fn next_color(value: &str, forward: bool) -> (r: &'static str)
    ensures
        r@ == accent_colors()[{
            let current = color_position(value@);
            if forward {
                if current + 1 < 7 { current + 1 } else { 0 }
            } else {
                if current == 0 { 6 } else { current - 1 }
            }
        }],
{
    proof {
        reveal_strlit("cyan");
        reveal_strlit("magenta");
        reveal_strlit("green");
        reveal_strlit("yellow");
        reveal_strlit("blue");
        reveal_strlit("red");
        reveal_strlit("white");
    }
    let current: usize = if same_text(value, "cyan") { 0 }
        else if same_text(value, "magenta") { 1 }
        else if same_text(value, "green") { 2 }
        else if same_text(value, "yellow") { 3 }
        else if same_text(value, "blue") { 4 }
        else if same_text(value, "red") { 5 }
        else if same_text(value, "white") { 6 }
        else { 0 };
    assert(current == color_position(value@));
    let next = if forward {
        if current + 1 < 7 { current + 1 } else { 0 }
    } else {
        if current == 0 { 6 } else { current - 1 }
    };
    if next == 0 { "cyan" }
    else if next == 1 { "magenta" }
    else if next == 2 { "green" }
    else if next == 3 { "yellow" }
    else if next == 4 { "blue" }
    else if next == 5 { "red" }
    else { "white" }
}

/// Applies a key to a form: Tab/Down and Shift+Tab/Up change fields, Ctrl+u clears the
/// field, Home/End and Left/Right move the cursor by grapheme clusters, Backspace and
/// Delete remove one, and printable characters are inserted while the value stays within
/// 512 bytes. With `accent`, Left and Right on the second field cycle the accent colors.
pub fn edit_field_key(fields: &mut Vec<(String, String)>, selected: &mut usize, cursor: &mut usize, key: KeyPress, accent: bool)
    requires
        form_ok(old(fields)@, *old(selected), *old(cursor)),
        accent ==> old(fields)@.len() >= 2,
    ensures
        form_ok(final(fields)@, *final(selected), *final(cursor)),
        final(fields)@.len() == old(fields)@.len(),
        labels(final(fields)@) == labels(old(fields)@),
        (values(final(fields)@), *final(selected), *final(cursor))
            == field_edit(values(old(fields)@), *old(selected), *old(cursor), key, accent),
{
    let ghost vs = values(fields@);
    let s = *selected;
    let n = fields.len();
    let end = byte_len(fields[s].1.as_str());
    assert(fields@[s as int].1@ == vs[s as int]);
    match key.code {
        KeyCode::Tab | KeyCode::Down => {
            let t = if s + 1 < n { s + 1 } else { 0 };
            *selected = t;
            *cursor = byte_len(fields[t].1.as_str());
            assert(fields@[t as int].1@ == vs[t as int]);
            assert(is_char_boundary(bytes_of(fields@[t as int].1@), bytes_of(fields@[t as int].1@).len() as int));
        },
        KeyCode::BackTab | KeyCode::Up => {
            let t = if s == 0 { n - 1 } else { s - 1 };
            *selected = t;
            *cursor = byte_len(fields[t].1.as_str());
            assert(fields@[t as int].1@ == vs[t as int]);
            assert(is_char_boundary(bytes_of(fields@[t as int].1@), bytes_of(fields@[t as int].1@).len() as int));
        },
        KeyCode::Char(c) => {
            if key.control && c == 'u' {
                set_value(fields, s, String::new());
                *cursor = 0;
            } else if !key.control && !key.alt && !(c <= '\u{1f}' || ('\u{7f}' <= c && c <= '\u{9f}'))
                && end <= FIELD_LIMIT && utf8_len(c) <= FIELD_LIMIT - end {
                let value = insert_char(fields[s].1.as_str(), *cursor, c);
                set_value(fields, s, value);
                *cursor = *cursor + utf8_len(c);
            }
        },
        KeyCode::Home => {
            *cursor = 0;
        },
        KeyCode::End => {
            *cursor = end;
        },
        KeyCode::Left | KeyCode::Right => {
            if accent && s == 1 {
                let color = next_color(fields[1].1.as_str(), key.code == KeyCode::Right);
                set_value(fields, 1, owned(color));
                *cursor = byte_len(color);
            } else if key.code == KeyCode::Left {
                let p = previous_boundary(fields[s].1.as_str(), *cursor);
                *cursor = p;
            } else {
                let q = next_boundary(fields[s].1.as_str(), *cursor);
                *cursor = q;
            }
        },
        KeyCode::Backspace => {
            let p = previous_boundary(fields[s].1.as_str(), *cursor);
            assert(p <= *cursor);
            let value = remove_range(fields[s].1.as_str(), p, *cursor);
            set_value(fields, s, value);
            *cursor = p;
        },
        KeyCode::Delete => {
            let q = next_boundary(fields[s].1.as_str(), *cursor);
            let value = remove_range(fields[s].1.as_str(), *cursor, q);
            set_value(fields, s, value);
        },
        _ => {},
    }
}

/// Pasting `text` at `cursor`: its control characters are dropped, and it stops at the
/// first character that would take the value past 512 bytes. Gives the value and cursor.
pub open spec fn pasted(value: Seq<char>, cursor: usize, text: Seq<char>) -> (Seq<char>, usize)
    decreases text.len(),
{
    if text.len() == 0 {
        (value, cursor)
    } else {
        let c = text[0];
        if is_control(c) {
            pasted(value, cursor, text.drop_first())
        } else if bytes_of(value).len() + bytes_of(seq![c]).len() > FIELD_LIMIT {
            (value, cursor)
        } else {
            pasted(inserted(value, cursor as int, c), (cursor + bytes_of(seq![c]).len()) as usize, text.drop_first())
        }
    }
}

/// Pastes `text` into the selected field at the cursor; see [`pasted`].
pub fn paste_into(fields: &mut Vec<(String, String)>, selected: usize, cursor: &mut usize, text: &str)
    requires
        form_ok(old(fields)@, selected, *old(cursor)),
    ensures
        form_ok(final(fields)@, selected, *final(cursor)),
        final(fields)@.len() == old(fields)@.len(),
        labels(final(fields)@) == labels(old(fields)@),
        values(final(fields)@) == values(old(fields)@).update(selected as int,
            pasted(old(fields)@[selected as int].1@, *old(cursor), text@).0),
        *final(cursor) == pasted(old(fields)@[selected as int].1@, *old(cursor), text@).1,
{
    let chars = chars_of(text);
    let ghost start = (fields@[selected as int].1@, *cursor);
    let ghost vs = values(fields@);
    let mut i: usize = 0;
    let mut full = false;
    assert(text@.subrange(0, text@.len() as int) =~= text@);
    while i < chars.len() && !full
        invariant
            chars@ == text@,
            i <= chars.len(),
            form_ok(fields@, selected, *cursor),
            fields@.len() == old(fields)@.len(),
            labels(fields@) == labels(old(fields)@),
            values(fields@) == vs.update(selected as int, fields@[selected as int].1@),
            vs == values(old(fields)@),
            !full ==> pasted(start.0, start.1, text@) == pasted(fields@[selected as int].1@, *cursor, text@.subrange(i as int, text@.len() as int)),
            full ==> pasted(start.0, start.1, text@) == (fields@[selected as int].1@, *cursor),
        decreases chars.len() - i,
    {
        let c = chars[i];
        let ghost rest = text@.subrange(i as int, text@.len() as int);
        assert(rest[0] == c);
        assert(rest.drop_first() =~= text@.subrange(i + 1, text@.len() as int));
        if !(c <= '\u{1f}' || ('\u{7f}' <= c && c <= '\u{9f}')) {
            let end = byte_len(fields[selected].1.as_str());
            let width = utf8_len(c);
            if end > FIELD_LIMIT || width > FIELD_LIMIT - end {
                full = true;
            } else {
                let value = insert_char(fields[selected].1.as_str(), *cursor, c);
                set_value(fields, selected, value);
                *cursor = *cursor + width;
            }
        }
        i += 1;
    }
    proof {
        if !full {
            assert(text@.subrange(i as int, text@.len() as int) =~= Seq::<char>::empty());
        }
        assert(values(fields@) =~= values(old(fields)@).update(selected as int, fields@[selected as int].1@));
    }
}

} // verus!
