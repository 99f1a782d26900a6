//! The field renderer: what is written to the display for one entity, and how
//! many cells of it must be remembered for the next refresh.
//!
//! A field is written from its first cell on: the label, a separator, the
//! content (the value and the unit, or an error marker), and then as many
//! blanks as the previous content was longer than this one, so that nothing of
//! an older, longer content stays visible.

use vstd::prelude::*;
use vstd::string::StringSliceAdditionalSpecFns;
use crate::entity::Entity;
use crate::error::RequestError;
use crate::text::text_equals;

verus! {

/// Display code of `:`.
pub const COLON: u8 = 0x3A;

/// Display code of a blank cell.
pub const BLANK: u8 = 0x20;

/// Display code of `?`.
pub const QUESTION_MARK: u8 = 0x3F;

/// Display code of `E`.
pub const LETTER_E: u8 = 0x45;

/// Display code of `R`.
pub const LETTER_R: u8 = 0x52;

/// Number of cells of the error marker.
pub const ERROR_MARKER_LENGTH: usize = 3;

/// The state text that the remote side reports for an entity without a value.
pub open spec fn unavailable_text() -> Seq<char> {
    "unavailable"@
}

/// The cells between the label and the content: a colon and a blank.
pub open spec fn separator_cells() -> Seq<u8> {
    seq![COLON, BLANK]
}

/// The cells shown in place of the content when the fetch failed: `ERR`.
pub open spec fn error_cells() -> Seq<u8> {
    seq![LETTER_E, LETTER_R, LETTER_R]
}

/// `count` blank cells.
pub open spec fn blank_cells(count: nat) -> Seq<u8> {
    Seq::new(count, |i: int| BLANK)
}

/// What a fetch produced, as the renderer sees it: the state text, or nothing.
pub open spec fn fetched_state(fetched: &Result<&str, RequestError>) -> Option<Seq<char>> {
    match fetched {
        Ok(text) => Some(text@),
        Err(_) => None,
    }
}

/// The cells of a value: the bytes of the state text, but a single question
/// mark for a state that is exactly `unavailable`.
pub open spec fn value_cells(state: Seq<char>) -> Seq<u8> {
    if state == unavailable_text() {
        seq![QUESTION_MARK]
    } else {
        vstd::utf8::encode_utf8(state)
    }
}

/// The content of a field: value and unit after a fetch that succeeded, the
/// error marker alone after one that failed.
pub open spec fn content_cells(unit: Seq<u8>, state: Option<Seq<char>>) -> Seq<u8> {
    match state {
        Some(text) => value_cells(text) + unit,
        None => error_cells(),
    }
}

/// How many blanks erase what is left of a content of `previous_length` cells
/// behind one of `new_length` cells.
pub open spec fn erase_count(previous_length: nat, new_length: nat) -> nat {
    if previous_length > new_length {
        (previous_length - new_length) as nat
    } else {
        0
    }
}

/// Everything written for one field in one refresh, from the field's first
/// cell on.
pub open spec fn field_cells(entity: Entity, state: Option<Seq<char>>, previous_length: nat) -> Seq<
    u8,
> {
    let content = content_cells(entity.unit_cells(), state);
    entity.label_cells() + separator_cells() + content + blank_cells(
        erase_count(previous_length, content.len()),
    )
}

/// Writes one field to `out` and returns the length of its content, which the
/// caller hands back as `previous_length` at the next refresh of this field.
pub fn render(
    entity: &Entity,
    fetched: &Result<&str, RequestError>,
    previous_length: usize,
    out: &mut Vec<u8>,
) -> (new_length: usize)
    ensures
        new_length == content_cells(entity.unit_cells(), fetched_state(fetched)).len(),
        fetched is Err ==> new_length == ERROR_MARKER_LENGTH,
        final(out)@ == old(out)@ + field_cells(
            *entity,
            fetched_state(fetched),
            previous_length as nat,
        ),
        final(out)@.len() == old(out)@.len() + entity.label_cells().len() + 2 + if new_length
            >= previous_length {
            new_length
        } else {
            previous_length
        },
{
    let ghost before = out@;
    let ghost content = content_cells(entity.unit_cells(), fetched_state(fetched));
    out.extend_from_slice(entity.display_name.as_bytes());
    out.push(COLON);
    out.push(BLANK);
    assert(out@ =~= before + entity.label_cells() + separator_cells());
    let content_start: usize = out.len();
    match fetched {
        Ok(state) => {
            if text_equals(state, "unavailable") {
                out.push(QUESTION_MARK);
            } else {
                out.extend_from_slice(state.as_bytes());
            }
            out.extend_from_slice(entity.display_unit);
        },
        Err(_) => {
            out.push(LETTER_E);
            out.push(LETTER_R);
            out.push(LETTER_R);
        },
    }
    assert(out@ =~= before + entity.label_cells() + separator_cells() + content);
    let new_length: usize = out.len() - content_start;
    let mut blanks: usize = previous_length.saturating_sub(new_length);
    let ghost total = blanks as nat;
    let ghost written = out@;
    while blanks > 0
        invariant
            blanks <= total,
            out@ == written + blank_cells((total - blanks) as nat),
        decreases blanks,
    {
        out.push(BLANK);
        blanks -= 1;
        assert(out@ =~= written + blank_cells((total - blanks) as nat));
    }
    assert(out@ =~= before + field_cells(*entity, fetched_state(fetched), previous_length as nat));
    new_length
}

/// What the refresh loop remembers of one field between two refreshes: the
/// length of the content that the field shows.
#[derive(Clone, Copy, Debug, PartialEq, Eq)]
pub struct FieldState {
    pub previous_length: usize,
}

impl FieldState {
    /// The state of a field that has not been rendered yet: nothing to erase.
    pub fn new() -> (state: Self)
        ensures
            state.previous_length == 0,
    {
        FieldState { previous_length: 0 }
    }

    /// Renders the field against what it showed before and remembers the
    /// length of the new content.
    pub fn render(
        &mut self,
        entity: &Entity,
        fetched: &Result<&str, RequestError>,
        out: &mut Vec<u8>,
    ) -> (new_length: usize)
        ensures
            new_length == content_cells(entity.unit_cells(), fetched_state(fetched)).len(),
            final(self).previous_length == new_length,
            final(out)@ == old(out)@ + field_cells(
                *entity,
                fetched_state(fetched),
                old(self).previous_length as nat,
            ),
    {
        let new_length: usize = render(entity, fetched, self.previous_length, out);
        self.previous_length = new_length;
        new_length
    }
}

/// The length of the content that a field shows before its `index`-th render
/// in a row of renders: nothing before the first, and then the content of the
/// render before.
pub open spec fn length_before(entity: Entity, states: Seq<Option<Seq<char>>>, index: int) -> nat {
    if index <= 0 {
        0
    } else {
        content_cells(entity.unit_cells(), states[index - 1]).len()
    }
}

/// What the `index`-th render in a row of renders of one field writes.
pub open spec fn written_at(entity: Entity, states: Seq<Option<Seq<char>>>, index: int) -> Seq<u8> {
    field_cells(entity, states[index], length_before(entity, states, index))
}

/// A render covers the longer of the new and the previous content, and what
/// it writes behind the new content is blank.
///
/// Behind the label and the separator, a field written for a content of
/// `new_length` cells over one of `previous_length` cells spans the larger of
/// the two, starts with the new content, and is blank from there on.
pub proof fn lemma_render_covers_previous(
    entity: Entity,
    state: Option<Seq<char>>,
    previous_length: nat,
)
    ensures
        ({
            let content = content_cells(entity.unit_cells(), state);
            let lead = entity.label_cells().len() + 2;
            let written = field_cells(entity, state, previous_length);
            &&& written.len() == lead + if content.len() >= previous_length {
                content.len()
            } else {
                previous_length
            }
            &&& written.subrange(0, lead as int) == entity.label_cells() + separator_cells()
            &&& written.subrange(lead as int, (lead + content.len()) as int) == content
            &&& forall|cell: int|
                lead + content.len() <= cell < written.len() ==> written[cell] == BLANK
        }),
{
    let content = content_cells(entity.unit_cells(), state);
    let lead = entity.label_cells().len() + 2;
    let written = field_cells(entity, state, previous_length);
    assert(written.subrange(0, lead as int) =~= entity.label_cells() + separator_cells());
    assert(written.subrange(lead as int, (lead + content.len()) as int) =~= content);
}

/// In any row of renders of one field, each render spans the longer of its
/// own content and the content of the render before it, and shows blanks
/// behind its own content.
pub proof fn lemma_erasure_in_a_row(entity: Entity, states: Seq<Option<Seq<char>>>, index: int)
    requires
        0 <= index < states.len(),
    ensures
        ({
            let current = content_cells(entity.unit_cells(), states[index]).len();
            let before = length_before(entity, states, index);
            let lead = entity.label_cells().len() + 2;
            let written = written_at(entity, states, index);
            &&& written.len() - lead == if current >= before {
                current
            } else {
                before
            }
            &&& forall|cell: int| lead + current <= cell < written.len() ==> written[cell] == BLANK
        }),
{
    lemma_render_covers_previous(entity, states[index], length_before(entity, states, index));
}

/// A state that is exactly `unavailable` is shown as a question mark and
/// nothing else, followed by the unit.
pub proof fn lemma_unavailable_is_question_mark(entity: Entity, previous_length: nat)
    ensures
        value_cells(unavailable_text()) == seq![QUESTION_MARK],
        content_cells(entity.unit_cells(), Some(unavailable_text())) == seq![QUESTION_MARK]
            + entity.unit_cells(),
{
}

} // verus!
