//! The state of the refresh loop: the catalog, what each field showed last,
//! and the brightness.

use vstd::prelude::*;
use crate::cycle::{lengths_after, outcome_states, paint_cells, screen_after};
use crate::entity::Entity;
use crate::error::RequestError;
use crate::luminance::{level_after, requested_level, Brightness};
use crate::render::{content_cells, fetched_state, FieldState};
use crate::url::{build_url, url_fits, url_text, UrlTooLong, URL_CAPACITY};

verus! {

/// The refresh loop's state between two fetches.
pub struct Dashboard<'a> {
    catalog: &'a [Entity],
    fields: Vec<FieldState>,
    brightness: Brightness,
}

impl<'a> Dashboard<'a> {
    /// Every entity of the catalog has its field state.
    pub closed spec fn wf(&self) -> bool {
        self.fields@.len() == self.catalog@.len()
    }

    /// The catalog.
    pub closed spec fn catalog(&self) -> Seq<Entity> {
        self.catalog@
    }

    /// The content length that each field showed last, in catalog order.
    pub closed spec fn previous(&self) -> Seq<nat> {
        Seq::new(self.catalog@.len(), |index: int| self.fields@[index].previous_length as nat)
    }

    /// The brightness that the display was last set to.
    pub closed spec fn level(&self) -> u8 {
        self.brightness.level
    }

    /// The state before the first cycle: no field shows anything, and the
    /// display is at the default brightness.
    pub fn new(catalog: &'a [Entity], default_level: u8) -> (dashboard: Self)
        ensures
            dashboard.wf(),
            dashboard.catalog() == catalog@,
            dashboard.previous() == Seq::new(catalog@.len(), |index: int| 0nat),
            dashboard.level() == default_level,
    {
        let mut fields: Vec<FieldState> = Vec::new();
        let mut index: usize = 0;
        while index < catalog.len()
            invariant
                index <= catalog@.len(),
                fields@.len() == index,
                forall|k: int| 0 <= k < index ==> fields@[k].previous_length == 0,
            decreases catalog@.len() - index,
        {
            fields.push(FieldState::new());
            index += 1;
        }
        let dashboard = Dashboard { catalog, fields, brightness: Brightness::new(default_level) };
        assert(dashboard.previous() =~= Seq::new(catalog@.len(), |index: int| 0nat));
        dashboard
    }

    /// Number of entities in the catalog.
    pub fn entity_count(&self) -> (count: usize)
        ensures
            count == self.catalog().len(),
    {
        self.catalog.len()
    }

    /// The entity at `index`, if the catalog has that many.
    pub fn entity(&self, index: usize) -> (entity: Option<Entity>)
        ensures
            entity == if index < self.catalog().len() {
                Some(self.catalog()[index as int])
            } else {
                None
            },
    {
        if index < self.catalog.len() {
            Some(self.catalog[index])
        } else {
            None
        }
    }

    /// The content length that the field at `index` showed last, if the
    /// catalog has that many entities.
    pub fn previous_length(&self, index: usize) -> (length: Option<usize>)
        requires
            self.wf(),
        ensures
            self.previous().len() == self.catalog().len(),
            length matches Some(cells) ==> index < self.catalog().len() && cells
                == self.previous()[index as int],
            length is Some <==> index < self.catalog().len(),
    {
        if index < self.fields.len() {
            Some(self.fields[index].previous_length)
        } else {
            None
        }
    }

    /// The brightness that the display was last set to.
    pub fn brightness(&self) -> (level: u8)
        ensures
            level == self.level(),
    {
        self.brightness.level
    }

    /// The address of the state of the entity at `index`, under `base`.
    ///
    /// There is none for an index beyond the catalog. For an entity of the
    /// catalog the address is built, or found too long, as [`build_url`]
    /// does.
    pub fn entity_url(&self, base: &str, index: usize) -> (url: Option<
        Result<heapless::String<512>, UrlTooLong>,
    >)
        ensures
            url is Some <==> index < self.catalog().len(),
            url matches Some(built) ==> {
                let identifier = self.catalog()[index as int].entity_name;
                &&& built is Ok <==> url_fits(base, identifier)
                &&& built matches Ok(address) ==> url_text(address) == base@ + identifier@
            },
    {
        if index < self.catalog.len() {
            Some(build_url(base, self.catalog[index].entity_name))
        } else {
            None
        }
    }

    /// The first entity of the catalog whose address under `base` is too long
    /// for a URL buffer, to be looked for once at startup; none where every
    /// address fits.
    pub fn first_overlong_url(&self, base: &str) -> (found: Option<usize>)
        ensures
            found is None ==> forall|index: int|
                0 <= index < self.catalog().len() ==> url_fits(
                    base,
                    (#[trigger] self.catalog()[index]).entity_name,
                ),
            found matches Some(at) ==> {
                &&& at < self.catalog().len()
                &&& !url_fits(base, self.catalog()[at as int].entity_name)
                &&& forall|index: int|
                    0 <= index < at ==> url_fits(
                        base,
                        (#[trigger] self.catalog()[index]).entity_name,
                    )
            },
    {
        let mut index: usize = 0;
        while index < self.catalog.len()
            invariant
                index <= self.catalog@.len(),
                forall|k: int|
                    0 <= k < index ==> url_fits(base, (#[trigger] self.catalog@[k]).entity_name),
            decreases self.catalog@.len() - index,
        {
            let identifier: &str = self.catalog[index].entity_name;
            let base_length: usize = base.as_bytes().len();
            let identifier_length: usize = identifier.as_bytes().len();
            assert(identifier == self.catalog@[index as int].entity_name);
            if base_length > URL_CAPACITY || identifier_length > URL_CAPACITY - base_length {
                return Some(index);
            }
            assert(url_fits(base, self.catalog@[index as int].entity_name));
            index += 1;
        }
        None
    }

    /// Renders the field of the entity at `index` for the outcome of its
    /// fetch and remembers the length of what it now shows.
    ///
    /// Returns that length. For an index beyond the catalog nothing is
    /// written and nothing changes.
    pub fn render_entity(
        &mut self,
        index: usize,
        fetched: &Result<&str, RequestError>,
        out: &mut Vec<u8>,
    ) -> (new_length: Option<usize>)
        requires
            old(self).wf(),
        ensures
            final(self).wf(),
            final(self).catalog() == old(self).catalog(),
            final(self).level() == old(self).level(),
            new_length is Some <==> index < old(self).catalog().len(),
            new_length matches Some(cells) ==> {
                &&& cells == content_cells(
                    old(self).catalog()[index as int].unit_cells(),
                    fetched_state(fetched),
                ).len()
                &&& final(self).previous() == old(self).previous().update(index as int, cells as nat)
                &&& final(out)@ == old(out)@ + crate::render::field_cells(
                    old(self).catalog()[index as int],
                    fetched_state(fetched),
                    old(self).previous()[index as int],
                )
            },
            new_length is None ==> final(self).previous() == old(self).previous() && final(out)@
                == old(out)@,
    {
        if index >= self.catalog.len() {
            return None;
        }
        let ghost before = self.previous();
        let entity: Entity = self.catalog[index];
        let mut field: FieldState = self.fields[index];
        let cells: usize = field.render(&entity, fetched, out);
        self.fields.set(index, field);
        assert(self.previous() =~= before.update(index as int, cells as nat));
        Some(cells)
    }

    /// Renders every field once, in catalog order, for the outcomes of a
    /// cycle, and applies what is written to a copy of the display's cells.
    ///
    /// The cycle runs only with one outcome for each entity of the catalog;
    /// with any other number nothing is written and nothing changes. The
    /// result says whether it ran.
    pub fn render_cycle(
        &mut self,
        outcomes: &[Result<&str, RequestError>],
        screen: &mut Vec<u8>,
    ) -> (rendered: bool)
        requires
            old(self).wf(),
        ensures
            final(self).wf(),
            final(self).catalog() == old(self).catalog(),
            final(self).level() == old(self).level(),
            rendered == (outcomes@.len() == old(self).catalog().len()),
            rendered ==> final(screen)@ == screen_after(
                old(screen)@,
                old(self).catalog(),
                old(self).previous(),
                outcome_states(outcomes@),
                old(self).catalog().len(),
            ),
            rendered ==> final(self).previous() == lengths_after(
                old(self).catalog(),
                outcome_states(outcomes@),
            ),
            !rendered ==> final(self).previous() == old(self).previous() && final(screen)@ == old(
                screen,
            )@,
    {
        if outcomes.len() != self.catalog.len() {
            return false;
        }
        let ghost catalog = self.catalog();
        let ghost before = self.previous();
        let ghost states = outcome_states(outcomes@);
        let ghost start = screen@;
        let count: usize = self.catalog.len();
        let mut index: usize = 0;
        while index < count
            invariant
                self.wf(),
                self.catalog() == catalog,
                self.level() == old(self).level(),
                count == catalog.len(),
                outcomes@.len() == count,
                states == outcome_states(outcomes@),
                before.len() == count,
                index <= count,
                screen@ == screen_after(start, catalog, before, states, index as nat),
                self.previous().len() == count,
                forall|k: int|
                    0 <= k < count ==> self.previous()[k] == if k < index {
                        lengths_after(catalog, states)[k]
                    } else {
                        before[k]
                    },
            decreases count - index,
        {
            let position: u8 = self.catalog[index].position;
            let mut cells: Vec<u8> = Vec::new();
            self.render_entity(index, &outcomes[index], &mut cells);
            assert(cells@ =~= crate::cycle::written_for(catalog, before, states, index as int));
            paint_cells(screen, position, cells.as_slice());
            index += 1;
        }
        assert(self.previous() =~= lengths_after(catalog, states));
        true
    }

    /// Takes in the outcome of fetching the luminance source and returns the
    /// level to set the display to, if any. After a failed fetch there is
    /// none, and the brightness is what it was.
    pub fn update_luminance(&mut self, fetched: &Result<&str, RequestError>) -> (command: Option<u8>)
        ensures
            old(self).wf() ==> final(self).wf(),
            final(self).catalog() == old(self).catalog(),
            final(self).previous() == old(self).previous(),
            command == requested_level(fetched_state(fetched)),
            final(self).level() == level_after(old(self).level(), command),
            fetched is Err ==> command is None && final(self).level() == old(self).level(),
    {
        let mut brightness: Brightness = self.brightness;
        let command: Option<u8> = brightness.update(fetched);
        self.brightness = brightness;
        command
    }
}

} // verus!
