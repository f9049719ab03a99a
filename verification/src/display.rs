//! Writing a title and one page of a message into small display buffers.
//!
//! A buffer of `n` bytes shows up to `n - 1` characters: what is written is
//! followed by zero bytes up to the end of the buffer, at least one. A
//! message that needs more room is cut into pages of `n - 1` characters.

use crate::errors::ViewError;
use vstd::prelude::*;
use vstd::string::*;

verus! {

/// A title and a message body, or the reason why the item has none.
pub type Text = Result<(Seq<u8>, Seq<u8>), ViewError>;

/// The text that an item's own renderer came up with.
pub open spec fn text_of(r: Result<(&'static str, Vec<u8>), ViewError>) -> Text {
    match r {
        Ok((label, body)) => Ok((label.spec_bytes(), body@)),
        Err(e) => Err(e),
    }
}

/// The pages that a text of `len` characters takes with `room` characters to
/// the page. The empty text takes one page.
pub open spec fn page_count(len: nat, room: nat) -> nat
    recommends
        room > 0,
{
    if len == 0 {
        1
    } else {
        ((len - 1) / (room as int) + 1) as nat
    }
}

/// Page number `page` of `text`, counted from zero.
pub open spec fn page_of(text: Seq<u8>, room: nat, page: nat) -> Seq<u8>
    recommends
        room > 0,
        page < page_count(text.len(), room),
{
    let start = page * room;
    text.subrange(
        start as int,
        if text.len() - start > room {
            (start + room) as int
        } else {
            text.len() as int
        },
    )
}

/// A buffer of `len` bytes that holds `text` followed by zeros.
pub open spec fn zero_padded(text: Seq<u8>, len: nat) -> Seq<u8> {
    Seq::new(
        len,
        |i: int|
            if i < text.len() {
                text[i]
            } else {
                0u8
            },
    )
}

/// The buffer after page `page` of `item` was written into `len` bytes, and
/// the number of pages. A buffer under two bytes, more than 255 pages and a
/// page that the text does not have are failures.
pub open spec fn spec_page(item: Seq<u8>, len: nat, page: u8) -> Result<(Seq<u8>, u8), ViewError> {
    if len < 2 {
        Err(ViewError::Unknown)
    } else {
        let room = (len - 1) as nat;
        let pages = page_count(item.len(), room);
        if pages > 255 || page >= pages {
            Err(ViewError::Unknown)
        } else {
            Ok((zero_padded(page_of(item, room, page as nat), len), pages as u8))
        }
    }
}

/// The title as it is written: cut to the room of its buffer.
pub open spec fn spec_title(label: Seq<u8>, len: nat) -> Seq<u8>
    recommends
        len >= 2,
{
    zero_padded(page_of(label, (len - 1) as nat, 0), len)
}

/// The two buffers after a title and page `page` of a body were written,
/// and the number of pages of the body.
pub open spec fn spec_show(
    label: Seq<u8>,
    body: Seq<u8>,
    title_len: nat,
    message_len: nat,
    page: u8,
) -> Result<(Seq<u8>, Seq<u8>, u8), ViewError> {
    if title_len < 2 {
        Err(ViewError::Unknown)
    } else {
        match spec_page(body, message_len, page) {
            Err(e) => Err(e),
            Ok((message, pages)) => Ok((spec_title(label, title_len), message, pages)),
        }
    }
}

/// What rendering `text` at `page` does to the buffers `title` and
/// `message`, and returns. On failure, of the text or of the writing, both
/// buffers stay as they were.
pub open spec fn shows(
    text: Text,
    page: u8,
    title: Seq<u8>,
    message: Seq<u8>,
    new_title: Seq<u8>,
    new_message: Seq<u8>,
    r: Result<u8, ViewError>,
) -> bool {
    match text {
        Err(e) => r == Err::<u8, ViewError>(e) && new_title == title && new_message == message,
        Ok((label, body)) => match spec_show(label, body, title.len(), message.len(), page) {
            Err(e) => r == Err::<u8, ViewError>(e) && new_title == title && new_message == message,
            Ok((t, m, pages)) => r == Ok::<u8, ViewError>(pages) && new_title == t && new_message
                == m,
        },
    }
}

/// Fills `out` with `text[start..end]` and zeros behind it.
fn write_padded(out: &mut [u8], text: &[u8], start: usize, end: usize)
    requires
        start <= end <= text@.len(),
    ensures
        final(out)@ == zero_padded(text@.subrange(start as int, end as int), old(out)@.len()),
{
    let n = out.len();
    let mut i: usize = 0;
    while i < n
        invariant
            i <= n,
            n == out@.len(),
            n == old(out)@.len(),
            start <= end <= text@.len(),
            forall|k: int|
                0 <= k < i ==> out@[k] == zero_padded(
                    text@.subrange(start as int, end as int),
                    n as nat,
                )[k],
        decreases n - i,
    {
        if i < end - start {
            out[i] = text[start + i];
        } else {
            out[i] = 0;
        }
        i += 1;
    }
    assert(out@ =~= zero_padded(text@.subrange(start as int, end as int), n as nat));
}

/// Writes page `page` of `item` into `out` and returns the number of pages.
pub fn handle_ui_message(item: &[u8], out: &mut [u8], page: u8) -> (r: Result<u8, ViewError>)
    ensures
        match spec_page(item@, old(out)@.len(), page) {
            Ok((written, pages)) => r == Ok::<u8, ViewError>(pages) && final(out)@ == written,
            Err(e) => r == Err::<u8, ViewError>(e) && final(out)@ == old(out)@,
        },
{
    if out.len() < 2 {
        return Err(ViewError::Unknown);
    }
    let room: usize = out.len() - 1;
    let len: usize = item.len();
    let pages: usize = if len == 0 {
        1
    } else {
        (len - 1) / room + 1
    };
    if pages > 255 || page as usize >= pages {
        return Err(ViewError::Unknown);
    }
    assert(page * room <= len) by (nonlinear_arith)
        requires
            room > 0,
            len == 0 ==> page == 0,
            len > 0 ==> page <= (len - 1) / (room as int),
    ;
    let start: usize = page as usize * room;
    let end: usize = if len - start > room {
        start + room
    } else {
        len
    };
    write_padded(out, item, start, end);
    Ok(pages as u8)
}

/// Writes `label` into `title`, cut to the room there is, and page `page` of
/// `body` into `message`.
pub fn show(label: &[u8], body: &[u8], title: &mut [u8], message: &mut [u8], page: u8) -> (r:
    Result<u8, ViewError>)
    ensures
        shows(
            Ok((label@, body@)),
            page,
            old(title)@,
            old(message)@,
            final(title)@,
            final(message)@,
            r,
        ),
{
    if title.len() < 2 {
        return Err(ViewError::Unknown);
    }
    let pages = handle_ui_message(body, message, page)?;
    let room: usize = title.len() - 1;
    let end: usize = if label.len() > room {
        room
    } else {
        label.len()
    };
    assert(0 * room == 0);
    write_padded(title, label, 0, end);
    Ok(pages)
}

/// Writes an item's text, if it has one, as [`show`] does.
pub fn show_text(
    text: Result<(&'static str, Vec<u8>), ViewError>,
    title: &mut [u8],
    message: &mut [u8],
    page: u8,
) -> (r: Result<u8, ViewError>)
    ensures
        shows(text_of(text), page, old(title)@, old(message)@, final(title)@, final(message)@, r),
{
    match text {
        Ok((label, body)) => show(label.as_bytes(), body.as_slice(), title, message, page),
        Err(e) => Err(e),
    }
}

} // verus!
