//! The one-line text field that popups type into: its text, its cursor, and the editing
//! requests it understands (carried out by `tui_input`).
use vstd::prelude::*;

use crate::text::chars_of;
use tui_input::InputRequest as Req;

verus! {

/// An editing request, one for one with `tui_input::InputRequest`.
#[derive(Debug, Clone, Copy, PartialEq, Eq, Structural)]
pub enum EditRequest {
    SetCursor(usize),
    InsertChar(char),
    GoToPrevChar,
    GoToNextChar,
    GoToPrevWord,
    GoToNextWord,
    GoToStart,
    GoToEnd,
    DeletePrevChar,
    DeleteNextChar,
    DeletePrevWord,
    DeleteNextWord,
    DeleteLine,
    DeleteTillEnd,
}

/// The text and cursor that `tui_input::Input::handle` leaves after `req`, starting from
/// `value` with the cursor at `cursor` (clamped to the text's length).
pub uninterp spec fn edited_field(value: Seq<char>, cursor: usize, req: EditRequest) -> (Seq<char>, usize);

/// `x` if it is below `y`, else `y`.
pub open spec fn min_nat(x: int, y: int) -> int {
    if x < y {
        x
    } else {
        y
    }
}

/// What a request does, as `tui_input`'s source spells it out, for every request that
/// does not look for word boundaries; the word requests (which follow
/// `char::is_alphanumeric`) are left to `edited_field`. The cursor first moves back to
/// the end of the text when it stood past it.
pub open spec fn field_after(value: Seq<char>, cursor: usize, req: EditRequest) -> (Seq<char>, int) {
    let len = value.len() as int;
    let c = min_nat(cursor as int, len);
    match req {
        EditRequest::SetCursor(p) => (value, min_nat(p as int, len)),
        EditRequest::InsertChar(ch) => (value.take(c) + seq![ch] + value.skip(c), c + 1),
        EditRequest::GoToPrevChar => (value, if c == 0 { 0 } else { c - 1 }),
        EditRequest::GoToNextChar => (value, if c == len { c } else { c + 1 }),
        EditRequest::GoToStart => (value, 0),
        EditRequest::GoToEnd => (value, len),
        EditRequest::DeletePrevChar => if c == 0 {
            (value, c)
        } else {
            (value.remove(c - 1), c - 1)
        },
        EditRequest::DeleteNextChar => if c == len {
            (value, c)
        } else {
            (value.remove(c), c)
        },
        EditRequest::DeleteLine => (Seq::empty(), 0),
        EditRequest::DeleteTillEnd => (value.take(c), c),
        _ => {
            let r = edited_field(value, cursor, req);
            (r.0, r.1 as int)
        },
    }
}

/// Deleting the character before the cursor undoes inserting one: the text and the cursor
/// are back where they were.
pub proof fn lemma_insert_then_delete_restores(value: Seq<char>, cursor: usize, ch: char)
    requires
        cursor <= value.len(),
        cursor < usize::MAX,
    ensures
        ({
            let inserted = field_after(value, cursor, EditRequest::InsertChar(ch));
            field_after(inserted.0, (inserted.1) as usize, EditRequest::DeletePrevChar) == (value, cursor as int)
        }),
{
    let c = cursor as int;
    let v1 = value.take(c) + seq![ch] + value.skip(c);
    assert(v1.remove(c) =~= value);
}

/// `tui_input::Input::handle` applied to a field holding `value` with the cursor moved to
/// `cursor` by `Input::with_cursor` (which stops it at the end of the text). The result is
/// named `edited_field`; for the requests that do not look for word boundaries it is the
/// one `field_after` spells out from the crate's source: the text always, the cursor for
/// any text shorter than `usize::MAX` characters (which every text in memory is).
#[verifier::external_body]
fn handle_request(value: &str, cursor: usize, req: EditRequest) -> (r: (String, usize))
    ensures
        (r.0@, r.1) == edited_field(value@, cursor, req),
        r.0@ == field_after(value@, cursor, req).0,
        value@.len() < usize::MAX ==> r.1 as int == field_after(value@, cursor, req).1,
{
    let mut field = tui_input::Input::new(value.to_string()).with_cursor(cursor);
    field.handle(match req {
        EditRequest::SetCursor(p) => Req::SetCursor(p), EditRequest::InsertChar(c) => Req::InsertChar(c),
        EditRequest::GoToPrevChar => Req::GoToPrevChar, EditRequest::GoToNextChar => Req::GoToNextChar,
        EditRequest::GoToPrevWord => Req::GoToPrevWord, EditRequest::GoToNextWord => Req::GoToNextWord,
        EditRequest::GoToStart => Req::GoToStart, EditRequest::GoToEnd => Req::GoToEnd,
        EditRequest::DeletePrevChar => Req::DeletePrevChar, EditRequest::DeleteNextChar => Req::DeleteNextChar,
        EditRequest::DeletePrevWord => Req::DeletePrevWord, EditRequest::DeleteNextWord => Req::DeleteNextWord,
        EditRequest::DeleteLine => Req::DeleteLine, EditRequest::DeleteTillEnd => Req::DeleteTillEnd,
    });
    (field.value().to_string(), field.cursor())
}

/// The text of a field and the position of its cursor (in characters).
#[derive(Debug)]
pub struct InputField {
    pub value: String,
    pub cursor: usize,
}

impl InputField {
    /// An empty field.
    pub fn empty() -> (f: InputField)
        ensures
            f.value@ == Seq::<char>::empty(),
            f.cursor == 0,
    {
        InputField { value: String::new(), cursor: 0 }
    }

    /// A field holding `value` with the cursor after its last character.
    pub fn new(value: String) -> (f: InputField)
        ensures
            f.value@ == value@,
            f.cursor == value@.len(),
    {
        let n = chars_of(value.as_str()).len();
        InputField { value, cursor: n }
    }

    /// Carries out one editing request (see `field_after` and `edited_field`).
    pub fn apply(&mut self, req: EditRequest)
        ensures
            (final(self).value@, final(self).cursor) == edited_field(old(self).value@, old(self).cursor, req),
            final(self).value@ == field_after(old(self).value@, old(self).cursor, req).0,
            old(self).value@.len() < usize::MAX ==> final(self).cursor as int == field_after(
                old(self).value@,
                old(self).cursor,
                req,
            ).1,
    {
        let (value, cursor) = handle_request(self.value.as_str(), self.cursor, req);
        self.value = value;
        self.cursor = cursor;
    }
}

} // verus!
