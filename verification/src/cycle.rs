//! A refresh cycle as a whole: what the display shows after every field of
//! the catalog has been rendered once, in catalog order.
//!
//! The display is taken as a row of cells in overwrite mode: writing at a
//! position replaces the cells from there on and touches no other. Cells
//! beyond the end of the row are dropped.

use vstd::prelude::*;
use crate::entity::Entity;
use crate::error::RequestError;
use crate::render::{
    content_cells, fetched_state, field_cells, separator_cells, value_cells,
};

verus! {

/// The display after `cells` were written from cell `position` on.
pub open spec fn paint(screen: Seq<u8>, position: int, cells: Seq<u8>) -> Seq<u8> {
    Seq::new(
        screen.len(),
        |cell: int|
            if position <= cell < position + cells.len() {
                cells[cell - position]
            } else {
                screen[cell]
            },
    )
}

/// Writes `cells` into a copy of the display's cells, from `position` on.
pub fn paint_cells(screen: &mut Vec<u8>, position: u8, cells: &[u8])
    ensures
        final(screen)@ == paint(old(screen)@, position as int, cells@),
{
    let start: usize = position as usize;
    let ghost before = screen@;
    if start < screen.len() {
        let room: usize = screen.len() - start;
        let mut offset: usize = 0;
        while offset < cells.len() && offset < room
            invariant
                start + room <= usize::MAX,
                start + room == before.len(),
                screen@.len() == before.len(),
                offset <= cells@.len(),
                offset <= room,
                forall|cell: int|
                    0 <= cell < before.len() ==> screen@[cell] == if start <= cell < start
                        + offset {
                        cells@[cell - start]
                    } else {
                        before[cell]
                    },
            decreases cells@.len() - offset,
        {
            screen.set(start + offset, cells[offset]);
            offset += 1;
        }
    }
    assert(screen@ =~= paint(before, position as int, cells@));
}

/// The outcomes of a cycle as the renderer sees them: for each fetch its
/// state text, or nothing.
pub open spec fn outcome_states(outcomes: Seq<Result<&str, RequestError>>) -> Seq<
    Option<Seq<char>>,
> {
    Seq::new(outcomes.len(), |index: int| fetched_state(&outcomes[index]))
}

/// Whether a cycle has a previous length and an outcome for each entity.
pub open spec fn cycle_inputs(
    catalog: Seq<Entity>,
    previous: Seq<nat>,
    outcomes: Seq<Option<Seq<char>>>,
) -> bool {
    previous.len() == catalog.len() && outcomes.len() == catalog.len()
}

/// What the cycle writes for the entity at `index`.
pub open spec fn written_for(
    catalog: Seq<Entity>,
    previous: Seq<nat>,
    outcomes: Seq<Option<Seq<char>>>,
    index: int,
) -> Seq<u8> {
    field_cells(catalog[index], outcomes[index], previous[index])
}

/// Whether the cycle writes the cell `cell` for the entity at `index`.
pub open spec fn in_span(
    catalog: Seq<Entity>,
    previous: Seq<nat>,
    outcomes: Seq<Option<Seq<char>>>,
    index: int,
    cell: int,
) -> bool {
    catalog[index].position <= cell < catalog[index].position + written_for(
        catalog,
        previous,
        outcomes,
        index,
    ).len()
}

/// Whether no cell is written for two entities in the cycle.
pub open spec fn spans_disjoint(
    catalog: Seq<Entity>,
    previous: Seq<nat>,
    outcomes: Seq<Option<Seq<char>>>,
) -> bool {
    forall|first: int, second: int, cell: int|
        0 <= first < catalog.len() && 0 <= second < catalog.len() && first != second && #[trigger] in_span(
            catalog,
            previous,
            outcomes,
            first,
            cell,
        ) ==> !#[trigger] in_span(catalog, previous, outcomes, second, cell)
}

/// The display after the first `count` entities of the catalog were rendered.
pub open spec fn screen_after(
    screen: Seq<u8>,
    catalog: Seq<Entity>,
    previous: Seq<nat>,
    outcomes: Seq<Option<Seq<char>>>,
    count: nat,
) -> Seq<u8>
    decreases count,
{
    if count == 0 {
        screen
    } else {
        paint(
            screen_after(screen, catalog, previous, outcomes, (count - 1) as nat),
            catalog[count - 1].position as int,
            written_for(catalog, previous, outcomes, count - 1),
        )
    }
}

/// The lengths that the fields remember after the cycle.
pub open spec fn lengths_after(catalog: Seq<Entity>, outcomes: Seq<Option<Seq<char>>>) -> Seq<nat> {
    Seq::new(
        catalog.len(),
        |index: int| content_cells(catalog[index].unit_cells(), outcomes[index]).len(),
    )
}

/// Rendering keeps the size of the display.
pub proof fn lemma_screen_size_kept(
    screen: Seq<u8>,
    catalog: Seq<Entity>,
    previous: Seq<nat>,
    outcomes: Seq<Option<Seq<char>>>,
    count: nat,
)
    ensures
        screen_after(screen, catalog, previous, outcomes, count).len() == screen.len(),
    decreases count,
{
    if count > 0 {
        lemma_screen_size_kept(screen, catalog, previous, outcomes, (count - 1) as nat);
    }
}

/// A cell that is written for none of the first `count` entities shows after
/// them what it showed before.
pub proof fn lemma_cell_outside_spans_kept(
    screen: Seq<u8>,
    catalog: Seq<Entity>,
    previous: Seq<nat>,
    outcomes: Seq<Option<Seq<char>>>,
    count: nat,
    cell: int,
)
    requires
        0 <= cell < screen.len(),
        forall|index: int| 0 <= index < count ==> !in_span(catalog, previous, outcomes, index, cell),
    ensures
        screen_after(screen, catalog, previous, outcomes, count)[cell] == screen[cell],
    decreases count,
{
    if count > 0 {
        lemma_screen_size_kept(screen, catalog, previous, outcomes, (count - 1) as nat);
        lemma_cell_outside_spans_kept(screen, catalog, previous, outcomes, (count - 1) as nat, cell);
        assert(!in_span(catalog, previous, outcomes, count - 1, cell));
    }
}

/// Where the fields of a cycle do not overlap, a cell that is written for an
/// entity shows, once that entity and any number of later ones were rendered,
/// what was written for that entity.
pub proof fn lemma_cell_shows_its_field(
    screen: Seq<u8>,
    catalog: Seq<Entity>,
    previous: Seq<nat>,
    outcomes: Seq<Option<Seq<char>>>,
    count: nat,
    index: int,
    cell: int,
)
    requires
        cycle_inputs(catalog, previous, outcomes),
        spans_disjoint(catalog, previous, outcomes),
        0 <= index < count <= catalog.len(),
        0 <= cell < screen.len(),
        in_span(catalog, previous, outcomes, index, cell),
    ensures
        screen_after(screen, catalog, previous, outcomes, count)[cell] == written_for(
            catalog,
            previous,
            outcomes,
            index,
        )[cell - catalog[index].position],
    decreases count,
{
    lemma_screen_size_kept(screen, catalog, previous, outcomes, (count - 1) as nat);
    if index < count - 1 {
        assert(!in_span(catalog, previous, outcomes, count - 1, cell));
        lemma_cell_shows_its_field(
            screen,
            catalog,
            previous,
            outcomes,
            (count - 1) as nat,
            index,
            cell,
        );
    }
}

/// A failed fetch is isolated.
///
/// Take a cycle whose fields do not overlap, in which the fetch for the
/// entity at `failed` failed and the fetch for another entity, at `other`,
/// gave `text`. After the cycle the field of the other entity shows its
/// label, the separator, the value of `text` and its unit, cell for cell, as
/// if no fetch had failed.
pub proof fn lemma_failure_is_isolated(
    screen: Seq<u8>,
    catalog: Seq<Entity>,
    previous: Seq<nat>,
    outcomes: Seq<Option<Seq<char>>>,
    failed: int,
    other: int,
    text: Seq<char>,
    offset: int,
)
    requires
        cycle_inputs(catalog, previous, outcomes),
        spans_disjoint(catalog, previous, outcomes),
        0 <= failed < catalog.len(),
        0 <= other < catalog.len(),
        failed != other,
        outcomes[failed] is None,
        outcomes[other] == Some(text),
        0 <= offset < (catalog[other].label_cells() + separator_cells() + value_cells(text)
            + catalog[other].unit_cells()).len(),
        catalog[other].position + offset < screen.len(),
    ensures
        screen_after(screen, catalog, previous, outcomes, catalog.len())[catalog[other].position
            + offset] == (catalog[other].label_cells() + separator_cells() + value_cells(text)
            + catalog[other].unit_cells())[offset],
{
    let cell = catalog[other].position + offset;
    assert(in_span(catalog, previous, outcomes, other, cell));
    lemma_cell_shows_its_field(screen, catalog, previous, outcomes, catalog.len(), other, cell);
}

/// The outcome of one entity does not reach the field of another.
///
/// Two cycles that start from the same display and differ only in the
/// outcome for the entity at `changed` show the same in every cell that is
/// written for another entity, where the fields do not overlap in either
/// cycle.
pub proof fn lemma_fields_are_independent(
    screen: Seq<u8>,
    catalog: Seq<Entity>,
    previous: Seq<nat>,
    outcomes: Seq<Option<Seq<char>>>,
    changed: int,
    outcome: Option<Seq<char>>,
    other: int,
    cell: int,
)
    requires
        cycle_inputs(catalog, previous, outcomes),
        spans_disjoint(catalog, previous, outcomes),
        spans_disjoint(catalog, previous, outcomes.update(changed, outcome)),
        0 <= changed < catalog.len(),
        0 <= other < catalog.len(),
        changed != other,
        0 <= cell < screen.len(),
        in_span(catalog, previous, outcomes, other, cell),
    ensures
        screen_after(screen, catalog, previous, outcomes.update(changed, outcome), catalog.len())[cell]
            == screen_after(screen, catalog, previous, outcomes, catalog.len())[cell],
{
    let varied = outcomes.update(changed, outcome);
    assert(written_for(catalog, previous, varied, other) == written_for(
        catalog,
        previous,
        outcomes,
        other,
    ));
    assert(in_span(catalog, previous, varied, other, cell));
    lemma_cell_shows_its_field(screen, catalog, previous, outcomes, catalog.len(), other, cell);
    lemma_cell_shows_its_field(screen, catalog, previous, varied, catalog.len(), other, cell);
}

/// A cycle is idempotent.
///
/// Where the fields of a cycle do not overlap, running the cycle once more
/// with the same outcomes, from the display and the lengths that the first
/// run left, leaves the display as it is. The lengths that a cycle leaves
/// depend on its outcomes alone, so they stay as well.
pub proof fn lemma_cycle_is_idempotent(
    screen: Seq<u8>,
    catalog: Seq<Entity>,
    previous: Seq<nat>,
    outcomes: Seq<Option<Seq<char>>>,
)
    requires
        cycle_inputs(catalog, previous, outcomes),
        spans_disjoint(catalog, previous, outcomes),
    ensures
        screen_after(
            screen_after(screen, catalog, previous, outcomes, catalog.len()),
            catalog,
            lengths_after(catalog, outcomes),
            outcomes,
            catalog.len(),
        ) == screen_after(screen, catalog, previous, outcomes, catalog.len()),
{
    let count = catalog.len();
    let lengths = lengths_after(catalog, outcomes);
    let once = screen_after(screen, catalog, previous, outcomes, count);
    let twice = screen_after(once, catalog, lengths, outcomes, count);
    lemma_screen_size_kept(screen, catalog, previous, outcomes, count);
    lemma_screen_size_kept(once, catalog, lengths, outcomes, count);
    assert forall|index: int, cell: int|
        0 <= index < count && #[trigger] in_span(
            catalog,
            lengths,
            outcomes,
            index,
            cell,
        ) implies in_span(catalog, previous, outcomes, index, cell) && written_for(
        catalog,
        lengths,
        outcomes,
        index,
    )[cell - catalog[index].position] == written_for(catalog, previous, outcomes, index)[cell
        - catalog[index].position] by {}
    assert(spans_disjoint(catalog, lengths, outcomes));
    assert forall|cell: int| 0 <= cell < once.len() implies twice[cell] == once[cell] by {
        if exists|index: int| 0 <= index < count && in_span(catalog, lengths, outcomes, index, cell) {
            let index = choose|index: int|
                0 <= index < count && in_span(catalog, lengths, outcomes, index, cell);
            lemma_cell_shows_its_field(once, catalog, lengths, outcomes, count, index, cell);
            lemma_cell_shows_its_field(screen, catalog, previous, outcomes, count, index, cell);
        } else {
            lemma_cell_outside_spans_kept(once, catalog, lengths, outcomes, count, cell);
        }
    }
    assert(twice =~= once);
}

} // verus!
