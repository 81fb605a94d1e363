//! Editable text fields: grapheme-aware cursor movement, insertion and deletion at byte
//! offsets, and the visible window of a long value.
use vstd::prelude::*;
use vstd::utf8::{decode_utf8, encode_utf8, is_char_boundary, valid_utf8};
use unicode_segmentation::UnicodeSegmentation;
use unicode_width::UnicodeWidthStr;

verus! {

broadcast use vstd::utf8::group_utf8_lib;

/// The UTF-8 bytes of a text.
pub open spec fn bytes_of(s: Seq<char>) -> Seq<u8> {
    encode_utf8(s)
}

/// The byte offsets at which the extended grapheme clusters of a text start.
pub uninterp spec fn grapheme_starts(text: Seq<char>) -> Seq<usize>;

/// The terminal columns that a text takes.
pub uninterp spec fn display_width(text: Seq<char>) -> usize;

/// Byte offsets of the extended grapheme clusters of `text`, from unicode-segmentation's
/// `grapheme_indices(true)`: increasing character boundaries inside the text, the first at
/// offset 0 when the text is not empty.
#[verifier::external_body]
fn grapheme_offsets(text: &str) -> (r: Vec<usize>)
    ensures
        r@ == grapheme_starts(text@),
        forall|i: int| 0 <= i < r@.len() ==> (#[trigger] r@[i]) < bytes_of(text@).len()
            && is_char_boundary(bytes_of(text@), r@[i] as int),
        forall|i: int, j: int| 0 <= i < j < r@.len() ==> r@[i] < r@[j],
        text@.len() > 0 ==> r@.len() > 0 && r@[0] == 0,
{
    text.grapheme_indices(true).map(|(i, _)| i).collect()
}

/// unicode-width's `UnicodeWidthStr::width`: the terminal columns of a text, which depend
/// on the text alone (neighbouring characters, such as emoji sequences and variation
/// selectors, can change a character's columns); an empty text takes none.
#[verifier::external_body]
fn width(text: &str) -> (r: usize)
    ensures
        r == display_width(text@),
        text@.len() == 0 ==> r == 0,
{
    text.width()
}

pub proof fn lemma_encode_concat(a: Seq<char>, b: Seq<char>)
    ensures
        encode_utf8(a + b) == encode_utf8(a) + encode_utf8(b),
    decreases a.len(),
{
    if a.len() == 0 {
        assert(a + b =~= b);
        assert(encode_utf8(a) =~= Seq::<u8>::empty());
        assert(encode_utf8(a) + encode_utf8(b) =~= encode_utf8(b));
    } else {
        assert((a + b).drop_first() =~= a.drop_first() + b);
        lemma_encode_concat(a.drop_first(), b);
        assert((a + b)[0] == a[0]);
        assert(encode_utf8(a + b) =~= encode_utf8(a) + encode_utf8(b));
    }
}

/// The end of a text's first part is a character boundary of the whole.
pub proof fn lemma_concat_boundary(x: Seq<char>, y: Seq<char>)
    ensures
        is_char_boundary(bytes_of(x + y), bytes_of(x).len() as int),
{
    lemma_encode_concat(x, y);
    let b = bytes_of(x + y);
    if y.len() == 0 {
        assert(x + y =~= x);
        assert(is_char_boundary(b, b.len() as int));
    } else {
        assert(y =~= seq![y[0]] + y.drop_first());
        lemma_encode_concat(seq![y[0]], y.drop_first());
        assert(seq![y[0]].drop_first() =~= Seq::<char>::empty());
        assert(bytes_of(seq![y[0]]) =~= vstd::utf8::encode_scalar(y[0] as u32) + bytes_of(Seq::<char>::empty()));
        let by = bytes_of(y);
        assert(by.len() > 0);
        assert(is_char_boundary(by, 0));
        assert(!vstd::utf8::is_continuation_byte(by[0]));
        assert(b[bytes_of(x).len() as int] == by[0]);
        assert(is_char_boundary(b, bytes_of(x).len() as int));
    }
}

/// The characters whose bytes are `bytes[from..to]` of a text.
pub open spec fn slice_chars(s: Seq<char>, from: int, to: int) -> Seq<char> {
    decode_utf8(bytes_of(s).subrange(from, to))
}

/// `s` split at a character boundary `mid`: the views of both halves.
fn split(s: &str, mid: usize) -> (r: (&str, &str))
    requires
        is_char_boundary(bytes_of(s@), mid as int),
    ensures
        r.0@ == slice_chars(s@, 0, mid as int),
        r.1@ == slice_chars(s@, mid as int, bytes_of(s@).len() as int),
        bytes_of(r.0@) == bytes_of(s@).subrange(0, mid as int),
        bytes_of(r.1@) == bytes_of(s@).subrange(mid as int, bytes_of(s@).len() as int),
        r.0@ + r.1@ == s@,
{
    let r = s.split_at(mid);
    proof {
        vstd::utf8::encode_utf8_decode_utf8(r.0@);
        vstd::utf8::encode_utf8_decode_utf8(r.1@);
        vstd::utf8::encode_utf8_decode_utf8(s@);
        vstd::utf8::encode_utf8_valid_utf8(s@);
        vstd::utf8::decode_utf8_split(bytes_of(s@), mid as int);
        assert(bytes_of(s@).subrange(0, mid as int) + bytes_of(s@).subrange(mid as int, bytes_of(s@).len() as int) =~= bytes_of(s@));
    }
    r
}

// ---------------------------------------------------------------------------------------
// Cursor movement

/// The last grapheme start before `cursor`, else 0.
pub open spec fn previous_start(starts: Seq<usize>, cursor: usize) -> usize
    decreases starts.len(),
{
    if starts.len() == 0 {
        0
    } else if starts.last() < cursor {
        starts.last()
    } else {
        previous_start(starts.drop_last(), cursor)
    }
}

/// The first grapheme start after `cursor`, else the byte length.
pub open spec fn next_start(starts: Seq<usize>, cursor: usize, length: usize) -> usize
    decreases starts.len(),
{
    if starts.len() == 0 {
        length
    } else if starts[0] > cursor {
        starts[0]
    } else {
        next_start(starts.drop_first(), cursor, length)
    }
}

proof fn lemma_previous_start_member(starts: Seq<usize>, cursor: usize)
    ensures
        previous_start(starts, cursor) == 0 || exists|i: int| 0 <= i < starts.len()
            && #[trigger] starts[i] == previous_start(starts, cursor) && starts[i] < cursor,
    decreases starts.len(),
{
    if starts.len() > 0 && starts.last() >= cursor {
        lemma_previous_start_member(starts.drop_last(), cursor);
        let r = previous_start(starts, cursor);
        if r != 0 {
            let i = choose|i: int| 0 <= i < starts.drop_last().len() && #[trigger] starts.drop_last()[i] == r && starts.drop_last()[i] < cursor;
            assert(starts[i] == r);
        }
    }
}

proof fn lemma_next_start_member(starts: Seq<usize>, cursor: usize, length: usize)
    ensures
        next_start(starts, cursor, length) == length || exists|i: int| 0 <= i < starts.len()
            && #[trigger] starts[i] == next_start(starts, cursor, length),
    decreases starts.len(),
{
    if starts.len() > 0 && starts[0] <= cursor {
        lemma_next_start_member(starts.drop_first(), cursor, length);
        let r = next_start(starts, cursor, length);
        if r != length {
            let i = choose|i: int| 0 <= i < starts.drop_first().len() && #[trigger] starts.drop_first()[i] == r;
            assert(starts[i + 1] == r);
        }
    }
}

proof fn lemma_next_start_after(starts: Seq<usize>, cursor: usize, length: usize)
    requires
        cursor <= length,
    ensures
        cursor <= next_start(starts, cursor, length),
    decreases starts.len(),
{
    if starts.len() > 0 && starts[0] <= cursor {
        lemma_next_start_after(starts.drop_first(), cursor, length);
    }
}

/// The last of the grapheme starts `starts` before the cursor, else 0.
pub fn start_before(starts: &Vec<usize>, cursor: usize) -> (r: usize)
    ensures
        r == previous_start(starts@, cursor),
{
    let mut k: usize = starts.len();
    assert(starts@.subrange(0, k as int) =~= starts@);
    while k > 0
        invariant
            k <= starts.len(),
            previous_start(starts@, cursor) == previous_start(starts@.subrange(0, k as int), cursor),
        decreases k,
    {
        assert(starts@.subrange(0, k as int).drop_last() =~= starts@.subrange(0, k - 1));
        if starts[k - 1] < cursor {
            return starts[k - 1];
        }
        k -= 1;
    }
    0
}

/// The first of the grapheme starts `starts` after the cursor, else `length`.
pub fn start_after(starts: &Vec<usize>, cursor: usize, length: usize) -> (r: usize)
    ensures
        r == next_start(starts@, cursor, length),
{
    let ghost s = starts@;
    let mut k: usize = 0;
    assert(s.subrange(0, s.len() as int) =~= s);
    while k < starts.len()
        invariant
            s == starts@,
            k <= starts.len(),
            next_start(s, cursor, length) == next_start(s.subrange(k as int, s.len() as int), cursor, length),
        decreases starts.len() - k,
    {
        assert(s.subrange(k as int, s.len() as int)[0] == s[k as int]);
        if starts[k] > cursor {
            return starts[k];
        }
        assert(s.subrange(k as int, s.len() as int).drop_first() =~= s.subrange(k + 1, s.len() as int));
        k += 1;
    }
    assert(s.subrange(k as int, s.len() as int).len() == 0);
    length
}

/// The byte offset of the grapheme cluster before the cursor (or 0).
pub fn previous_boundary(value: &str, cursor: usize) -> (r: usize)
    ensures
        r == previous_start(grapheme_starts(value@), cursor),
        r == 0 || is_char_boundary(bytes_of(value@), r as int),
        r == 0 || r < cursor,
{
    let starts = grapheme_offsets(value);
    proof { lemma_previous_start_member(starts@, cursor); }
    start_before(&starts, cursor)
}

/// The byte offset of the grapheme cluster after the cursor (or the end).
pub fn next_boundary(value: &str, cursor: usize) -> (r: usize)
    ensures
        r == next_start(grapheme_starts(value@), cursor, bytes_of(value@).len() as usize),
        is_char_boundary(bytes_of(value@), r as int),
        r <= bytes_of(value@).len(),
        cursor <= bytes_of(value@).len() ==> cursor <= r,
{
    let total = byte_len(value);
    let starts = grapheme_offsets(value);
    proof {
        if cursor <= total {
            lemma_next_start_after(starts@, cursor, total);
        }
        lemma_next_start_member(starts@, cursor, total);
        vstd::utf8::encode_utf8_valid_utf8(value@);
        vstd::utf8::is_char_boundary_start_end_of_seq(bytes_of(value@));
    }
    start_after(&starts, cursor, total)
}


// ---------------------------------------------------------------------------------------
// Boundaries of parts of a text

proof fn lemma_boundary_prefix(b: Seq<u8>, c: int, i: int)
    requires
        valid_utf8(b),
        is_char_boundary(b, c),
        0 <= i <= c,
        is_char_boundary(b.subrange(0, c), i),
    ensures
        is_char_boundary(b, i),
{
    vstd::utf8::valid_utf8_split(b, c);
    let p = b.subrange(0, c);
    if i < c {
        vstd::utf8::is_char_boundary_iff_not_is_continuation_byte(p, i);
        vstd::utf8::is_char_boundary_iff_not_is_continuation_byte(b, i);
        assert(p[i] == b[i]);
    }
}

proof fn lemma_boundary_suffix(b: Seq<u8>, i: int, j: int)
    requires
        valid_utf8(b),
        is_char_boundary(b, i),
        is_char_boundary(b, j),
        0 <= i <= j <= b.len(),
    ensures
        valid_utf8(b.subrange(i, b.len() as int)),
        is_char_boundary(b.subrange(i, b.len() as int), j - i),
{
    vstd::utf8::valid_utf8_split(b, i);
    let t = b.subrange(i, b.len() as int);
    if j == b.len() {
        vstd::utf8::is_char_boundary_start_end_of_seq(t);
    } else if j > i {
        vstd::utf8::is_char_boundary_iff_not_is_continuation_byte(t, j - i);
        vstd::utf8::is_char_boundary_iff_not_is_continuation_byte(b, j);
        assert(t[j - i] == b[j]);
    }
}

proof fn lemma_text_bytes(s: Seq<char>)
    ensures
        valid_utf8(bytes_of(s)),
        decode_utf8(bytes_of(s)) == s,
        is_char_boundary(bytes_of(s), 0),
        is_char_boundary(bytes_of(s), bytes_of(s).len() as int),
{
    vstd::utf8::encode_utf8_valid_utf8(s);
    vstd::utf8::encode_utf8_decode_utf8(s);
    vstd::utf8::is_char_boundary_start_end_of_seq(bytes_of(s));
}

// ---------------------------------------------------------------------------------------
// The visible window of a field

/// The first grapheme start from index `k` whose rest of the text before the cursor fits in
/// fewer than `limit` columns, else the cursor.
pub open spec fn first_fitting(value: Seq<char>, cursor: int, starts: Seq<usize>, limit: int, k: int) -> int
    decreases starts.len() - k,
{
    if k < 0 || k >= starts.len() {
        cursor
    } else if display_width(slice_chars(value, starts[k] as int, cursor)) < limit {
        starts[k] as int
    } else {
        first_fitting(value, cursor, starts, limit, k + 1)
    }
}

/// The byte offset at which the window starts: the earliest grapheme cluster from which
/// the text up to the cursor is narrower than the field.
pub open spec fn window_start(value: Seq<char>, cursor: int, width: int) -> int {
    let starts = grapheme_starts(slice_chars(value, 0, cursor));
    let limit = if width > 1 { width } else { 1 };
    if starts.len() == 0 { 0 } else { first_fitting(value, cursor, starts, limit, 0) }
}

/// The first index from `k` whose width is below `limit`.
pub open spec fn first_fit(widths: Seq<usize>, limit: int, k: int) -> Option<int>
    decreases widths.len() - k,
{
    if k < 0 || k >= widths.len() {
        None
    } else if widths[k] < limit {
        Some(k)
    } else {
        first_fit(widths, limit, k + 1)
    }
}

proof fn lemma_first_fit(value: Seq<char>, cursor: int, starts: Seq<usize>, widths: Seq<usize>, limit: int, k: int)
    requires
        0 <= k,
        starts.len() == widths.len(),
        forall|i: int| 0 <= i < widths.len() ==> #[trigger] widths[i] == display_width(slice_chars(value, starts[i] as int, cursor)),
    ensures
        first_fitting(value, cursor, starts, limit, k) == match first_fit(widths, limit, k) {
            Some(j) => starts[j] as int,
            None => cursor,
        },
        first_fit(widths, limit, k) matches Some(j) ==> k <= j < widths.len() && widths[j] < limit,
    decreases widths.len() - k,
{
    if k < widths.len() {
        assert(widths[k] == display_width(slice_chars(value, starts[k] as int, cursor)));
        lemma_first_fit(value, cursor, starts, widths, limit, k + 1);
    }
}

/// The first of the widths (of the text from each grapheme start to the cursor) that fits
/// in a field of `width` columns: narrower than the field, or than one column when the
/// field is narrower.
pub fn fitting_start(widths: &Vec<usize>, width: usize) -> (r: Option<usize>)
    ensures
        match first_fit(widths@, if width > 1 { width as int } else { 1 }, 0) {
            Some(k) => r == Some(k as usize),
            None => r is None,
        },
{
    let limit = if width > 1 { width } else { 1 };
    let mut k: usize = 0;
    while k < widths.len()
        invariant
            k <= widths.len(),
            limit == (if width > 1 { width } else { 1 }),
            first_fit(widths@, limit as int, 0) == first_fit(widths@, limit as int, k as int),
        decreases widths.len() - k,
    {
        if widths[k] < limit {
            return Some(k);
        }
        k += 1;
    }
    None
}

/// Chooses a grapheme boundary that keeps the insertion point inside the field: the text
/// shown from there, and the column of the cursor in it.
pub fn input_window(value: &str, cursor: usize, width: usize) -> (r: (String, usize))
    requires
        is_char_boundary(bytes_of(value@), cursor as int),
    ensures
        r.0@ == slice_chars(value@, window_start(value@, cursor as int, width as int), bytes_of(value@).len() as int),
        r.1 == display_width(slice_chars(value@, window_start(value@, cursor as int, width as int), cursor as int)),
        r.1 < (if width > 1 { width } else { 1 }),
{
    let ghost b = bytes_of(value@);
    proof { lemma_text_bytes(value@); }
    let (before, _) = split(value, cursor);
    let starts = grapheme_offsets(before);
    let ghost limit: int = if width > 1 { width as int } else { 1 };
    let ghost bb = bytes_of(before@);
    assert(bb == b.subrange(0, cursor as int));
    assert(before@ == slice_chars(value@, 0, cursor as int));
    proof { lemma_text_bytes(before@); }
    let mut widths: Vec<usize> = Vec::new();
    let mut k: usize = 0;
    while k < starts.len()
        invariant
            b == bytes_of(value@),
            bb == bytes_of(before@),
            bb == b.subrange(0, cursor as int),
            before@ == slice_chars(value@, 0, cursor as int),
            valid_utf8(b),
            valid_utf8(bb),
            is_char_boundary(b, cursor as int),
            forall|i: int| 0 <= i < starts@.len() ==> (#[trigger] starts@[i]) < bb.len()
                && is_char_boundary(bb, starts@[i] as int),
            k <= starts.len(),
            widths@.len() == k,
            forall|i: int| 0 <= i < k
                ==> #[trigger] widths@[i] == display_width(slice_chars(value@, starts@[i] as int, cursor as int)),
        decreases starts.len() - k,
    {
        let at = starts[k];
        let (_, tail) = split(before, at);
        assert(bytes_of(tail@) == b.subrange(at as int, cursor as int)) by {
            assert(bb.subrange(at as int, bb.len() as int) =~= b.subrange(at as int, cursor as int));
        }
        assert(tail@ == slice_chars(value@, at as int, cursor as int));
        widths.push(self::width(tail));
        k += 1;
    }
    proof { lemma_first_fit(value@, cursor as int, starts@, widths@, limit, 0); }
    match fitting_start(&widths, width) {
        Some(j) => {
            let start = starts[j];
            proof { lemma_boundary_prefix(b, cursor as int, start as int); }
            let (_, shown) = split(value, start);
            (shown.to_owned(), widths[j])
        },
        None => {
            proof {
                if starts@.len() == 0 {
                    assert(before@.len() == 0);
                    assert(cursor == 0) by {
                        assert(bb.len() == 0);
                    }
                }
            }
            let start = cursor;
            let (_, shown) = split(value, start);
            let text = shown.to_owned();
            let (empty, _) = split(shown, 0);
            proof {
                lemma_text_bytes(shown@);
                assert(bytes_of(empty@).len() == 0);
                assert(empty@.len() == 0) by {
                    if empty@.len() > 0 {
                        vstd::utf8::encode_utf8_first_scalar(empty@);
                    }
                }
                assert(slice_chars(value@, start as int, cursor as int) =~= decode_utf8(Seq::<u8>::empty())) by {
                    assert(b.subrange(start as int, cursor as int) =~= Seq::<u8>::empty());
                }
                assert(decode_utf8(Seq::<u8>::empty()) =~= Seq::<char>::empty());
            }
            let w = self::width(empty);
            (text, w)
        },
    }
}


// ---------------------------------------------------------------------------------------
// Editing

/// The number of bytes in the UTF-8 encoding of a character.
pub fn utf8_len(c: char) -> (n: usize)
    ensures
        n == bytes_of(seq![c]).len(),
        1 <= n <= 4,
{
    proof {
        vstd::utf8::char_is_scalar(c);
        assert(seq![c].drop_first() =~= Seq::<char>::empty());
        assert(encode_utf8(Seq::<char>::empty()) =~= Seq::<u8>::empty());
        assert(seq![c][0] == c);
        assert(encode_utf8(seq![c]) == vstd::utf8::encode_scalar(c as u32) + encode_utf8(seq![c].drop_first()));
        assert(bytes_of(seq![c]) =~= vstd::utf8::encode_scalar(c as u32));
    }
    if (c as u32) < 0x80 { 1 } else if (c as u32) < 0x800 { 2 } else if (c as u32) < 0x10000 { 3 } else { 4 }
}

/// The byte length of a text.
pub fn byte_len(value: &str) -> (n: usize)
    ensures
        n == bytes_of(value@).len(),
{
    value.as_bytes().len()
}

/// `value` with `c` inserted at byte offset `at`.
pub fn insert_char(value: &str, at: usize, c: char) -> (r: String)
    requires
        is_char_boundary(bytes_of(value@), at as int),
    ensures
        bytes_of(r@) == bytes_of(value@).subrange(0, at as int) + bytes_of(seq![c])
            + bytes_of(value@).subrange(at as int, bytes_of(value@).len() as int),
        r@ == slice_chars(value@, 0, at as int) + seq![c] + slice_chars(value@, at as int, bytes_of(value@).len() as int),
        is_char_boundary(bytes_of(r@), at + bytes_of(seq![c]).len()),
{
    let (left, right) = split(value, at);
    let mut r = left.to_owned();
    crate::text::push_char(&mut r, c);
    r.append(right);
    proof {
        assert(left@.push(c) =~= left@ + seq![c]);
        assert(r@ == left@ + seq![c] + right@);
        lemma_encode_concat(left@, seq![c]);
        lemma_encode_concat(left@ + seq![c], right@);
        assert(bytes_of(r@) =~= bytes_of(left@) + bytes_of(seq![c]) + bytes_of(right@));
        lemma_concat_boundary(left@ + seq![c], right@);
    }
    r
}

/// `value` without the bytes from `from` to `to`.
pub fn remove_range(value: &str, from: usize, to: usize) -> (r: String)
    requires
        from <= to,
        is_char_boundary(bytes_of(value@), from as int),
        is_char_boundary(bytes_of(value@), to as int),
    ensures
        bytes_of(r@) == bytes_of(value@).subrange(0, from as int)
            + bytes_of(value@).subrange(to as int, bytes_of(value@).len() as int),
        r@ == slice_chars(value@, 0, from as int) + slice_chars(value@, to as int, bytes_of(value@).len() as int),
        is_char_boundary(bytes_of(r@), from as int),
{
    let ghost b = bytes_of(value@);
    proof { lemma_text_bytes(value@); }
    let (left, rest) = split(value, from);
    proof { lemma_boundary_suffix(b, from as int, to as int); }
    let (_, right) = split(rest, to - from);
    proof {
        let t = b.subrange(from as int, b.len() as int);
        assert(t.subrange((to - from) as int, t.len() as int) =~= b.subrange(to as int, b.len() as int));
    }
    let mut r = left.to_owned();
    r.append(right);
    proof {
        lemma_encode_concat(left@, right@);
        lemma_concat_boundary(left@, right@);
    }
    r
}

} // verus!
