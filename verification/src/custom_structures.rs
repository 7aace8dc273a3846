//! Custom structures: named groups of structures that a collection can use
//! as the kind of a field.

use crate::structures::{
    can_read_all, deleted as structure_deleted, lines_of_structures, put_structure,
    read_structures, structure_views, with_structure, Structure, StructureView,
};
use crate::text::{
    all_alnum_or, chars_of, check_length, ends, failed, fine, first_index, is_alnum_or,
    is_among, joined_lines, lemma_first_index, lemma_first_index_is, lemma_trimmed_alnum,
    length_error, push_line, same_text, split, split_on, string_of, trim, trimmed, views,
    Outcome,
};
use vstd::prelude::*;

verus! {

/// One custom structure.
#[derive(Default, Debug, Clone)]
pub struct CustomStructure {
    pub id: String,
    name: String,
    structures: Vec<Structure>,
}

/// What a `CustomStructure` holds.
pub struct CustomStructureView {
    pub id: Seq<char>,
    pub name: Seq<char>,
    pub structures: Seq<StructureView>,
}

impl View for CustomStructure {
    type V = CustomStructureView;

    closed spec fn view(&self) -> CustomStructureView {
        CustomStructureView {
            id: self.id@,
            name: self.name@,
            structures: structure_views(self.structures@),
        }
    }
}

/// The views of a list of custom structures.
pub open spec fn custom_views(all: Seq<CustomStructure>) -> Seq<CustomStructureView> {
    Seq::new(all.len(), |index: int| all[index]@)
}

/// The ids of the custom structures, in order.
pub open spec fn ids_of(all: Seq<CustomStructureView>) -> Seq<Seq<char>> {
    Seq::new(all.len(), |index: int| all[index].id)
}

/// The list without the custom structures of the given id.
pub open spec fn without_id(all: Seq<CustomStructureView>, id: Seq<char>) -> Seq<
    CustomStructureView,
>
    decreases all.len(),
{
    if all.len() == 0 {
        all
    } else if all[0].id == id {
        without_id(all.skip(1), id)
    } else {
        seq![all[0]] + without_id(all.skip(1), id)
    }
}

/// The id that a custom structure has while it is being created.
pub open spec fn placeholder_id() -> Seq<char> {
    "test;"@
}

/// A custom structure with the placeholder id and nothing else.
pub open spec fn blank() -> CustomStructureView {
    CustomStructureView { id: placeholder_id(), name: Seq::empty(), structures: Seq::empty() }
}

/// The list with `change` put on the first custom structure of the id;
/// without such a custom structure the operation fails.
pub open spec fn changed_first(
    all: Seq<CustomStructureView>,
    id: Seq<char>,
    change: spec_fn(CustomStructureView) -> CustomStructureView,
) -> Outcome<CustomStructureView> {
    let at = first_index(ids_of(all), id);
    if at == all.len() {
        failed(all, "Error: Custom Structure not found"@)
    } else {
        fine(all.update(at, change(all[at])))
    }
}

/// What `CustomStructure::update_id` does: the first custom structure of
/// the id gets the trimmed new id. The new id must not be the id of a
/// custom structure of the list, may hold ASCII letters and digits, `_`
/// and `-`, and has, trimmed, between 1 and 100 bytes.
pub open spec fn id_updated(
    all: Seq<CustomStructureView>,
    id: Seq<char>,
    new_id: Seq<char>,
) -> Outcome<CustomStructureView> {
    if is_among(ids_of(all), new_id) {
        failed(all, "Error: id is already in use"@)
    } else if !all_alnum_or(new_id, seq!['_', '-']) {
        failed(all, "Error: new_id contains an invalid character"@)
    } else {
        match length_error(
            new_id,
            1,
            100,
            "Error: new_id does not contain enough characters"@,
            "Error: new_id contains too many characters"@,
        ) {
            Some(message) => failed(all, message),
            None => changed_first(
                all,
                id,
                |custom: CustomStructureView| CustomStructureView { id: trimmed(new_id), ..custom },
            ),
        }
    }
}

/// What `CustomStructure::update_name` does: the first custom structure of
/// the id gets the trimmed name, which may hold ASCII letters and digits,
/// `_` and spaces, and has, trimmed, between 1 and 100 bytes.
pub open spec fn name_updated(
    all: Seq<CustomStructureView>,
    id: Seq<char>,
    name: Seq<char>,
) -> Outcome<CustomStructureView> {
    if !all_alnum_or(name, seq!['_', ' ']) {
        failed(all, "Error: name contains an invalid character"@)
    } else {
        match length_error(
            name,
            1,
            100,
            "Error: name does not contain enough characters"@,
            "Error: name contains too many characters"@,
        ) {
            Some(message) => failed(all, message),
            None => changed_first(
                all,
                id,
                |custom: CustomStructureView| CustomStructureView { name: trimmed(name), ..custom },
            ),
        }
    }
}

/// What `CustomStructure::add_structure` does: the structure goes to the
/// end of the structures of the first custom structure of the id.
pub open spec fn structure_added(
    all: Seq<CustomStructureView>,
    id: Seq<char>,
    structure: StructureView,
) -> Outcome<CustomStructureView> {
    changed_first(
        all,
        id,
        |custom: CustomStructureView|
            CustomStructureView { structures: custom.structures.push(structure), ..custom },
    )
}

/// What `CustomStructure::update_structure` does: in the first custom
/// structure of the id, the structure takes the place of every structure
/// of its id, or goes to the end where there is none.
pub open spec fn structure_updated(
    all: Seq<CustomStructureView>,
    id: Seq<char>,
    structure: StructureView,
) -> Outcome<CustomStructureView> {
    changed_first(
        all,
        id,
        |custom: CustomStructureView|
            CustomStructureView {
                structures: with_structure(custom.structures, structure),
                ..custom
            },
    )
}

/// What `CustomStructure::set_structures` does: the first custom structure
/// of the id gets the given structures in place of its own.
pub open spec fn structures_set(
    all: Seq<CustomStructureView>,
    id: Seq<char>,
    structures: Seq<StructureView>,
) -> Outcome<CustomStructureView> {
    changed_first(
        all,
        id,
        |custom: CustomStructureView| CustomStructureView { structures, ..custom },
    )
}

/// What `CustomStructure::remove_structure` does: the first custom
/// structure of the id loses its structures of the given id; it is an
/// error where it has none.
pub open spec fn structure_removed(
    all: Seq<CustomStructureView>,
    id: Seq<char>,
    structure_id: Seq<char>,
) -> Outcome<CustomStructureView> {
    let at = first_index(ids_of(all), id);
    if at == all.len() {
        failed(all, "Error: Custom Structure not found"@)
    } else {
        let left = structure_deleted(all[at].structures, structure_id);
        match left.error {
            Some(message) => failed(all, message),
            None => fine(
                all.update(at, CustomStructureView { structures: left.list, ..all[at] }),
            ),
        }
    }
}

/// What `CustomStructure::delete` does: every custom structure of the id
/// leaves the list, unless there is none.
pub open spec fn deleted(all: Seq<CustomStructureView>, id: Seq<char>) -> Outcome<
    CustomStructureView,
> {
    if !is_among(ids_of(all), id) {
        failed(all, "Error: Custom Structure not found"@)
    } else {
        fine(without_id(all, id))
    }
}

/// A failed step of a creation undone: the custom structures of the id are
/// deleted and the step's error stays.
pub open spec fn undone(step: Outcome<CustomStructureView>, id: Seq<char>) -> Outcome<
    CustomStructureView,
> {
    failed(deleted(step.list, id).list, step.error->Some_0)
}

/// What `CustomStructure::create` does.
///
/// A blank custom structure joins the list under the placeholder id and
/// is then given the id and the name, each as its update does it, the
/// name found by the id as it was passed in. The first update that fails
/// ends the creation: the custom structures of the id that the search
/// went by are deleted, and the update's error is the result.
pub open spec fn created(all: Seq<CustomStructureView>, id: Seq<char>, name: Seq<char>) -> Outcome<
    CustomStructureView,
> {
    let with_id = id_updated(all.push(blank()), placeholder_id(), id);
    if with_id.error is Some {
        undone(with_id, placeholder_id())
    } else {
        let with_name = name_updated(with_id.list, id, name);
        if with_name.error is Some {
            undone(with_name, id)
        } else {
            with_name
        }
    }
}

/// The line that writes a custom structure: its id, its name and the
/// lines of its structures, with `|` between them.
pub open spec fn line_of_custom(custom: CustomStructureView) -> Seq<char> {
    custom.id + seq!['|'] + custom.name + seq!['|'] + joined_lines(
        lines_of_structures(custom.structures),
        '%',
    )
}

/// The lines that write the custom structures.
pub open spec fn lines_of_customs(all: Seq<CustomStructureView>) -> Seq<Seq<char>> {
    Seq::new(all.len(), |index: int| line_of_custom(all[index]))
}

/// The pieces from `from` on, with `sep` between them.
pub open spec fn rejoined(pieces: Seq<Seq<char>>, from: int, sep: char) -> Seq<char>
    decreases pieces.len(),
{
    if pieces.len() <= from || from < 0 {
        Seq::empty()
    } else if pieces.len() == from + 1 {
        pieces.last()
    } else {
        rejoined(pieces.drop_last(), from, sep).push(sep) + pieces.last()
    }
}

/// What `CustomStructure::from_string` gives for a line, where it gives
/// anything: an error where the line has fewer than three pieces or the
/// creation from its first two fails, else the custom structure so
/// created, of which the structures stay empty. There is no result where
/// the rest of the line holds a structure that cannot be read.
pub open spec fn custom_of_line(line: Seq<char>) -> Option<Result<CustomStructureView, Seq<char>>> {
    let pieces = split(line, '|');
    if pieces.len() < 3 {
        Some(Err("Error: Wrong format for Custom Structure data"@))
    } else {
        let made = created(Seq::empty(), pieces[0], pieces[1]);
        match made.error {
            Some(message) => Some(Err(message)),
            None => if !can_read_all(rejoined(pieces, 2, '|')) || made.list.len() == 0 {
                None
            } else {
                Some(Ok(made.list[0]))
            },
        }
    }
}

/// The list with `custom` in the place of every custom structure of its
/// id, or at the end where none has its id.
pub open spec fn with_custom(all: Seq<CustomStructureView>, custom: CustomStructureView) -> Seq<
    CustomStructureView,
> {
    if is_among(ids_of(all), custom.id) {
        Seq::new(
            all.len(),
            |index: int|
                if all[index].id == custom.id {
                    custom
                } else {
                    all[index]
                },
        )
    } else {
        all.push(custom)
    }
}

/// Puts a custom structure into a list: in the place of every custom
/// structure of its id, or at the end where none has its id.
pub fn put_custom(all_custom_structures: &mut Vec<CustomStructure>, custom: CustomStructure)
    ensures
        custom_views(final(all_custom_structures)@) == with_custom(
            custom_views(old(all_custom_structures)@),
            custom@,
        ),
{
    let ghost before = custom_views(all_custom_structures@);
    let ghost ids = ids_of(before);
    let mut found = false;
    let mut at: usize = 0;
    while at < all_custom_structures.len()
        invariant
            at <= all_custom_structures.len(),
            all_custom_structures.len() == before.len(),
            ids == ids_of(before),
            found == exists|index: int| 0 <= index < at && #[trigger] ids[index] == custom@.id,
            forall|index: int|
                0 <= index < at ==> #[trigger] custom_views(all_custom_structures@)[index] == (if before[
                    index
                ].id == custom@.id {
                    custom@
                } else {
                    before[index]
                }),
            forall|index: int|
                at <= index < before.len() ==> #[trigger] custom_views(
                    all_custom_structures@,
                )[index] == before[index],
        decreases all_custom_structures.len() - at,
    {
        let ghost current = custom_views(all_custom_structures@);
        assert(current[at as int] == before[at as int]);
        assert(ids[at as int] == before[at as int].id);
        if same_text(all_custom_structures[at].id_text(), custom.id_text()) {
            let copy = custom.copy();
            CustomStructure::put(all_custom_structures, at, copy);
            found = true;
        }
        at = at + 1;
    }
    proof {
        crate::text::lemma_first_index_is(ids, custom@.id);
        if found {
            let index = choose|index: int|
                0 <= index < ids.len() && #[trigger] ids[index] == custom@.id;
            assert(is_among(ids, custom@.id));
            assert(custom_views(all_custom_structures@) =~= with_custom(before, custom@));
        } else {
            assert(!is_among(ids, custom@.id));
            assert forall|index: int| 0 <= index < before.len() implies #[trigger] custom_views(
                all_custom_structures@,
            )[index] == before[index] by {
                assert(ids[index] == before[index].id);
            }
            assert(custom_views(all_custom_structures@) =~= before);
        }
    }
    if !found {
        all_custom_structures.push(custom);
        assert(custom_views(all_custom_structures@) =~= before.push(custom@));
    }
}

/// Puts the pieces from the third on together again, with `|` between
/// them.
pub fn rejoin(pieces: &Vec<Vec<char>>) -> (text: Vec<char>)
    ensures
        text@ == rejoined(views(pieces@), 2, '|'),
{
    let ghost all = views(pieces@);
    let mut text: Vec<char> = Vec::new();
    if pieces.len() <= 2 {
        return text;
    }
    let mut at: usize = 2;
    assert(all.take(2).len() == 2);
    while at < pieces.len()
        invariant
            2 <= at <= pieces.len(),
            all == views(pieces@),
            text@ == rejoined(all.take(at as int), 2, '|'),
        decreases pieces.len() - at,
    {
        let ghost before = text@;
        if at > 2 {
            text.push('|');
        }
        let ghost start = text@;
        let piece = &pieces[at];
        assert(all[at as int] == piece@);
        let mut offset: usize = 0;
        while offset < piece.len()
            invariant
                offset <= piece.len(),
                text@ == start + piece@.take(offset as int),
            decreases piece.len() - offset,
        {
            text.push(piece[offset]);
            assert(start + piece@.take(offset + 1) =~= (start + piece@.take(offset as int)).push(
                piece@[offset as int],
            ));
            offset = offset + 1;
        }
        assert(piece@.take(piece@.len() as int) =~= piece@);
        assert(all.take(at + 1).drop_last() =~= all.take(at as int));
        assert(all.take(at + 1).last() == piece@);
        assert(text@ =~= rejoined(all.take(at + 1), 2, '|')) by {
            if at == 2 {
                assert(before =~= Seq::<char>::empty());
                assert(start + piece@ =~= piece@);
            }
        }
        at = at + 1;
    }
    assert(all.take(all.len() as int) =~= all);
    text
}

impl CustomStructure {
    /// Position of the first custom structure with the id, or the length
    /// of the list.
    fn position(all_custom_structures: &Vec<CustomStructure>, id: &str) -> (at: usize)
        ensures
            at == first_index(ids_of(custom_views(all_custom_structures@)), id@),
            at <= all_custom_structures.len(),
    {
        let ghost ids = ids_of(custom_views(all_custom_structures@));
        let mut at: usize = 0;
        while at < all_custom_structures.len()
            invariant
                at <= all_custom_structures.len(),
                ids == ids_of(custom_views(all_custom_structures@)),
                forall|index: int| 0 <= index < at ==> #[trigger] ids[index] != id@,
            decreases all_custom_structures.len() - at,
        {
            if same_text(all_custom_structures[at].id.as_str(), id) {
                proof {
                    assert(ids[at as int] == id@);
                    lemma_first_index(ids, id@, at as int);
                }
                return at;
            }
            assert(ids[at as int] != id@);
            at = at + 1;
        }
        proof {
            lemma_first_index(ids, id@, at as int);
        }
        at
    }

    /// The id.
    pub fn id_text(&self) -> (id: &str)
        ensures
            id@ == self@.id,
    {
        self.id.as_str()
    }

    /// A copy of the custom structure.
    pub fn copy(&self) -> (custom: CustomStructure)
        ensures
            custom@ == self@,
    {
        CustomStructure {
            id: self.id.clone(),
            name: self.name.clone(),
            structures: Structure::copy_all(&self.structures),
        }
    }

    /// Copies of the custom structures, in order.
    pub fn copy_all(all_custom_structures: &Vec<CustomStructure>) -> (copies: Vec<CustomStructure>)
        ensures
            custom_views(copies@) == custom_views(all_custom_structures@),
    {
        let mut copies: Vec<CustomStructure> = Vec::new();
        let mut at: usize = 0;
        while at < all_custom_structures.len()
            invariant
                at <= all_custom_structures.len(),
                custom_views(copies@) == custom_views(all_custom_structures@).take(at as int),
            decreases all_custom_structures.len() - at,
        {
            let ghost before = custom_views(copies@);
            let copy = all_custom_structures[at].copy();
            copies.push(copy);
            assert(custom_views(copies@) =~= before.push(copy@));
            assert(custom_views(copies@) =~= custom_views(all_custom_structures@).take(at + 1));
            at = at + 1;
        }
        assert(custom_views(all_custom_structures@).take(all_custom_structures@.len() as int)
            =~= custom_views(all_custom_structures@));
        copies
    }

    /// Puts `custom` in the place `at` of the list.
    fn put(all_custom_structures: &mut Vec<CustomStructure>, at: usize, custom: CustomStructure)
        requires
            at < old(all_custom_structures).len(),
        ensures
            final(all_custom_structures)@.len() == old(all_custom_structures)@.len(),
            custom_views(final(all_custom_structures)@) == custom_views(
                old(all_custom_structures)@,
            ).update(at as int, custom@),
    {
        all_custom_structures[at] = custom;
        assert(custom_views(all_custom_structures@) =~= custom_views(
            old(all_custom_structures)@,
        ).update(at as int, custom@));
    }

    /// Adds a custom structure; see `created`.
    pub fn create(
        all_custom_structures: &mut Vec<CustomStructure>,
        id: &str,
        name: &str,
    ) -> (result: Result<(), String>)
        ensures
            ends(
                result,
                custom_views(final(all_custom_structures)@),
                created(custom_views(old(all_custom_structures)@), id@, name@),
            ),
    {
        let tmp_id = String::from_str("test;");
        let new_id = String::from_str(id);
        let ghost before = custom_views(all_custom_structures@);
        let new_custom_structure = CustomStructure {
            id: tmp_id.clone(),
            name: String::new(),
            structures: Vec::new(),
        };
        assert(new_custom_structure@.structures =~= Seq::empty());
        all_custom_structures.push(new_custom_structure);
        assert(custom_views(all_custom_structures@) =~= before.push(blank()));
        if let Err(error) = Self::update_id(all_custom_structures, &tmp_id, id) {
            let _ = Self::delete(all_custom_structures, &tmp_id);
            return Err(error);
        }
        if let Err(error) = Self::update_name(all_custom_structures, &new_id, name) {
            let _ = Self::delete(all_custom_structures, &new_id);
            return Err(error);
        }
        Ok(())
    }

    /// Whether a custom structure of the list has the id.
    pub fn exist(all_custom_structures: &Vec<CustomStructure>, id: &str) -> (found: bool)
        ensures
            found == is_among(ids_of(custom_views(all_custom_structures@)), id@),
    {
        Self::position(all_custom_structures, id) < all_custom_structures.len()
    }

    /// Changes the id of a custom structure; see `id_updated`.
    pub fn update_id(
        all_custom_structures: &mut Vec<CustomStructure>,
        id: &String,
        new_id: &str,
    ) -> (result: Result<(), String>)
        ensures
            ends(
                result,
                custom_views(final(all_custom_structures)@),
                id_updated(custom_views(old(all_custom_structures)@), id@, new_id@),
            ),
    {
        if Self::position(all_custom_structures, new_id) < all_custom_structures.len() {
            return Err(String::from_str("Error: id is already in use"));
        }
        let chars = chars_of(new_id);
        let extra: Vec<char> = vec!['_', '-'];
        assert(extra@ =~= seq!['_', '-']);
        if !is_alnum_or(&chars, &extra) {
            return Err(String::from_str("Error: new_id contains an invalid character"));
        }
        let short = trim(&chars);
        if let Some(message) = check_length(
            &short,
            1,
            100,
            "Error: new_id does not contain enough characters",
            "Error: new_id contains too many characters",
        ) {
            return Err(message);
        }
        let at = Self::position(all_custom_structures, id.as_str());
        if at == all_custom_structures.len() {
            return Err(String::from_str("Error: Custom Structure not found"));
        }
        let mut custom = all_custom_structures[at].copy();
        custom.id = short;
        Self::put(all_custom_structures, at, custom);
        Ok(())
    }

    /// Changes the name of a custom structure; see `name_updated`.
    pub fn update_name(
        all_custom_structures: &mut Vec<CustomStructure>,
        id: &String,
        name: &str,
    ) -> (result: Result<(), String>)
        ensures
            ends(
                result,
                custom_views(final(all_custom_structures)@),
                name_updated(custom_views(old(all_custom_structures)@), id@, name@),
            ),
    {
        let chars = chars_of(name);
        let extra: Vec<char> = vec!['_', ' '];
        assert(extra@ =~= seq!['_', ' ']);
        if !is_alnum_or(&chars, &extra) {
            return Err(String::from_str("Error: name contains an invalid character"));
        }
        let short = trim(&chars);
        if let Some(message) = check_length(
            &short,
            1,
            100,
            "Error: name does not contain enough characters",
            "Error: name contains too many characters",
        ) {
            return Err(message);
        }
        let at = Self::position(all_custom_structures, id.as_str());
        if at == all_custom_structures.len() {
            return Err(String::from_str("Error: Custom Structure not found"));
        }
        let mut custom = all_custom_structures[at].copy();
        custom.name = short;
        Self::put(all_custom_structures, at, custom);
        Ok(())
    }

    /// Adds a structure to a custom structure; see `structure_added`.
    pub fn add_structure(
        all_custom_structures: &mut Vec<CustomStructure>,
        id: &String,
        structure: Structure,
    ) -> (result: Result<(), String>)
        ensures
            ends(
                result,
                custom_views(final(all_custom_structures)@),
                structure_added(custom_views(old(all_custom_structures)@), id@, structure@),
            ),
    {
        let at = Self::position(all_custom_structures, id.as_str());
        if at == all_custom_structures.len() {
            return Err(String::from_str("Error: Custom Structure not found"));
        }
        let mut custom = all_custom_structures[at].copy();
        let ghost before = structure_views(custom.structures@);
        custom.structures.push(structure);
        assert(structure_views(custom.structures@) =~= before.push(structure@));
        Self::put(all_custom_structures, at, custom);
        Ok(())
    }

    /// Puts a structure into a custom structure; see `structure_updated`.
    pub fn update_structure(
        all_custom_structures: &mut Vec<CustomStructure>,
        id: &String,
        structure: Structure,
    ) -> (result: Result<(), String>)
        ensures
            ends(
                result,
                custom_views(final(all_custom_structures)@),
                structure_updated(custom_views(old(all_custom_structures)@), id@, structure@),
            ),
    {
        let at = Self::position(all_custom_structures, id.as_str());
        if at == all_custom_structures.len() {
            return Err(String::from_str("Error: Custom Structure not found"));
        }
        let mut custom = all_custom_structures[at].copy();
        put_structure(&mut custom.structures, structure);
        Self::put(all_custom_structures, at, custom);
        Ok(())
    }

    /// Replaces the structures of a custom structure; see `structures_set`.
    pub fn set_structures(
        all_custom_structures: &mut Vec<CustomStructure>,
        id: &String,
        structures: Vec<Structure>,
    ) -> (result: Result<(), String>)
        ensures
            ends(
                result,
                custom_views(final(all_custom_structures)@),
                structures_set(
                    custom_views(old(all_custom_structures)@),
                    id@,
                    structure_views(structures@),
                ),
            ),
    {
        let at = Self::position(all_custom_structures, id.as_str());
        if at == all_custom_structures.len() {
            return Err(String::from_str("Error: Custom Structure not found"));
        }
        let mut custom = all_custom_structures[at].copy();
        custom.structures = structures;
        Self::put(all_custom_structures, at, custom);
        Ok(())
    }

    /// Takes a structure out of a custom structure; see
    /// `structure_removed`.
    pub fn remove_structure(
        all_custom_structures: &mut Vec<CustomStructure>,
        id: &String,
        structure_id: &String,
    ) -> (result: Result<(), String>)
        ensures
            ends(
                result,
                custom_views(final(all_custom_structures)@),
                structure_removed(custom_views(old(all_custom_structures)@), id@, structure_id@),
            ),
    {
        let at = Self::position(all_custom_structures, id.as_str());
        if at == all_custom_structures.len() {
            return Err(String::from_str("Error: Custom Structure not found"));
        }
        let mut custom = all_custom_structures[at].copy();
        if let Err(error) = Structure::delete(&mut custom.structures, structure_id) {
            return Err(error);
        }
        Self::put(all_custom_structures, at, custom);
        Ok(())
    }

    /// Deletes the custom structures of an id; see `deleted`.
    pub fn delete(
        all_custom_structures: &mut Vec<CustomStructure>,
        id: &String,
    ) -> (result: Result<(), String>)
        ensures
            ends(
                result,
                custom_views(final(all_custom_structures)@),
                deleted(custom_views(old(all_custom_structures)@), id@),
            ),
    {
        if Self::position(all_custom_structures, id.as_str()) == all_custom_structures.len() {
            return Err(String::from_str("Error: Custom Structure not found"));
        }
        let ghost before = custom_views(all_custom_structures@);
        let mut at: usize = all_custom_structures.len();
        assert(before.skip(at as int) =~= Seq::empty());
        while at > 0
            invariant
                at <= all_custom_structures.len(),
                at <= before.len(),
                custom_views(all_custom_structures@).take(at as int) == before.take(at as int),
                custom_views(all_custom_structures@).skip(at as int) == without_id(
                    before.skip(at as int),
                    id@,
                ),
            decreases at,
        {
            at = at - 1;
            let ghost current = custom_views(all_custom_structures@);
            let ghost tail = before.skip(at as int);
            assert(tail.skip(1) =~= before.skip(at + 1));
            assert(tail[0] == before[at as int]);
            assert(current[at as int] == current.take(at + 1)[at as int]);
            assert(before[at as int] == before.take(at + 1)[at as int]);
            if same_text(all_custom_structures[at].id.as_str(), id.as_str()) {
                all_custom_structures.remove(at);
                assert(custom_views(all_custom_structures@).skip(at as int) =~= current.skip(
                    at + 1,
                ));
            } else {
                assert(current.skip(at as int) =~= seq![current[at as int]] + current.skip(
                    at + 1,
                ));
            }
            assert(custom_views(all_custom_structures@).take(at as int) =~= current.take(
                at + 1,
            ).take(at as int));
            assert(before.take(at as int) =~= before.take(at + 1).take(at as int));
        }
        assert(custom_views(all_custom_structures@).skip(0) =~= custom_views(
            all_custom_structures@,
        ));
        assert(before.skip(0) =~= before);
        Ok(())
    }

    /// The lines of the custom structures, joined by `#`.
    pub fn stringify(all_custom_structures: &Vec<CustomStructure>) -> (text: String)
        ensures
            text@ == joined_lines(lines_of_customs(custom_views(all_custom_structures@)), '#'),
    {
        let ghost lines = lines_of_customs(custom_views(all_custom_structures@));
        let mut joined: Vec<char> = Vec::new();
        let mut at: usize = 0;
        assert(lines.take(0) =~= Seq::empty());
        while at < all_custom_structures.len()
            invariant
                at <= all_custom_structures.len(),
                lines == lines_of_customs(custom_views(all_custom_structures@)),
                joined@ == joined_lines(lines.take(at as int), '#'),
            decreases all_custom_structures.len() - at,
        {
            let line = Self::line(&all_custom_structures[at]);
            assert(line@ == lines[at as int]);
            assert(lines.take(at + 1).drop_last() =~= lines.take(at as int));
            push_line(&mut joined, '#', line.as_str());
            at = at + 1;
        }
        assert(lines.take(lines.len() as int) =~= lines);
        string_of(&joined)
    }

    /// The custom structure that a line writes, where the line has one;
    /// see `custom_of_line`.
    pub fn try_from_string(custom_structure_str: &str) -> (result: Option<
        Result<CustomStructure, String>,
    >)
        ensures
            match custom_of_line(custom_structure_str@) {
                Some(Ok(custom)) => result matches Some(Ok(made)) && made@ == custom,
                Some(Err(message)) => result matches Some(Err(text)) && text@ == message,
                None => result is None,
            },
    {
        let current = split_on(&chars_of(custom_structure_str), '|');
        let ghost pieces = views(current@);
        assert(pieces.len() == current@.len());
        if current.len() < 3 {
            return Some(Err(String::from_str("Error: Wrong format for Custom Structure data")));
        }
        assert(pieces[0] == current@[0]@);
        assert(pieces[1] == current@[1]@);
        let mut tmp_custom_structures: Vec<CustomStructure> = Vec::new();
        assert(custom_views(tmp_custom_structures@) =~= Seq::empty());
        if let Err(error) = Self::create(
            &mut tmp_custom_structures,
            string_of(&current[0]).as_str(),
            string_of(&current[1]).as_str(),
        ) {
            return Some(Err(error));
        }
        let mut tmp_structures: Vec<Structure> = Vec::new();
        let current_structures = rejoin(&current);
        if !read_structures(&current_structures, &mut tmp_structures) {
            return None;
        }
        if tmp_custom_structures.len() == 0 {
            return None;
        }
        assert(custom_views(tmp_custom_structures@)[0] == tmp_custom_structures@[0]@);
        Some(Ok(tmp_custom_structures[0].copy()))
    }

    /// The custom structure that a line writes; see `custom_of_line`.
    pub fn from_string(custom_structure_str: &str) -> (result: Result<CustomStructure, String>)
        requires
            custom_of_line(custom_structure_str@) is Some,
        ensures
            match custom_of_line(custom_structure_str@)->Some_0 {
                Ok(custom) => result matches Ok(made) && made@ == custom,
                Err(message) => result matches Err(text) && text@ == message,
            },
    {
        match Self::try_from_string(custom_structure_str) {
            Some(result) => result,
            None => Err(String::new()),
        }
    }

    /// The line that writes the custom structure.
    pub fn to_string(custom_structure: CustomStructure) -> (line: String)
        ensures
            line@ == line_of_custom(custom_structure@),
    {
        Self::line(&custom_structure)
    }

    /// The line that writes the custom structure.
    fn line(custom_structure: &CustomStructure) -> (line: String)
        ensures
            line@ == line_of_custom(custom_structure@),
    {
        proof {
            reveal_strlit("|");
        }
        assert("|"@ =~= seq!['|']);
        let stringified_structures = Structure::stringify(&custom_structure.structures);
        let mut line = String::new();
        line.append(custom_structure.id.as_str());
        line.append("|");
        line.append(custom_structure.name.as_str());
        line.append("|");
        line.append(stringified_structures.as_str());
        assert(line@ =~= line_of_custom(custom_structure@));
        line
    }
}

/// The custom structures that the lines write: one for each line that
/// writes one. There is no result where `CustomStructure::from_string` has
/// none for a line.
pub open spec fn customs_of_lines(lines: Seq<Seq<char>>) -> Option<Seq<CustomStructureView>>
    decreases lines.len(),
{
    if lines.len() == 0 {
        Some(Seq::empty())
    } else {
        match customs_of_lines(lines.drop_last()) {
            None => None,
            Some(before) => match custom_of_line(lines.last()) {
                None => None,
                Some(Ok(custom)) => Some(before.push(custom)),
                Some(Err(_)) => Some(before),
            },
        }
    }
}

/// Where all lines can be read, so can the first of them.
pub proof fn lemma_lines_readable(lines: Seq<Seq<char>>, count: int)
    requires
        0 <= count <= lines.len(),
        customs_of_lines(lines) is Some,
    ensures
        customs_of_lines(lines.take(count)) is Some,
    decreases lines.len() - count,
{
    if count == lines.len() {
        assert(lines.take(count) =~= lines);
    } else {
        lemma_lines_readable(lines, count + 1);
        assert(lines.take(count + 1).drop_last() =~= lines.take(count));
    }
}

/// Reads the custom structures out of a text that holds their lines with
/// `#` between them; lines that write none are passed over. There is no
/// result where a line cannot be read.
pub fn read_custom_structures_from_str(custom_structures: &str) -> (result: Option<
    Vec<CustomStructure>,
>)
    ensures
        match customs_of_lines(split(custom_structures@, '#')) {
            Some(list) => result matches Some(all) && custom_views(all@) == list,
            None => result is None,
        },
{
    let lines = split_on(&chars_of(custom_structures), '#');
    let ghost wanted = views(lines@);
    let mut all_custom_structures: Vec<CustomStructure> = Vec::new();
    let mut at: usize = 0;
    assert(wanted.take(0) =~= Seq::empty());
    assert(custom_views(all_custom_structures@) =~= Seq::empty());
    while at < lines.len()
        invariant
            at <= lines.len(),
            wanted == views(lines@),
            wanted == split(custom_structures@, '#'),
            Some(custom_views(all_custom_structures@)) == customs_of_lines(wanted.take(at as int)),
        decreases lines.len() - at,
    {
        assert(wanted[at as int] == lines@[at as int]@);
        assert(wanted.take(at + 1).drop_last() =~= wanted.take(at as int));
        assert(wanted.take(at + 1).last() == wanted[at as int]);
        let ghost before = custom_views(all_custom_structures@);
        match CustomStructure::try_from_string(string_of(&lines[at]).as_str()) {
            None => {
                proof {
                    assert(customs_of_lines(wanted.take(at + 1)) is None);
                    if customs_of_lines(wanted) is Some {
                        lemma_lines_readable(wanted, at + 1);
                    }
                }
                return None;
            },
            Some(Ok(tmp_custom_structure)) => {
                all_custom_structures.push(tmp_custom_structure);
                assert(custom_views(all_custom_structures@) =~= before.push(
                    tmp_custom_structure@,
                ));
            },
            Some(Err(_)) => {},
        }
        at = at + 1;
    }
    assert(wanted.take(wanted.len() as int) =~= wanted);
    Some(all_custom_structures)
}

/// Reads the custom structures out of a text that holds their lines with
/// `#` between them; lines that write none are passed over.
pub fn get_custom_structures_from_str(custom_structures: &str) -> (all: Vec<CustomStructure>)
    requires
        customs_of_lines(split(custom_structures@, '#')) is Some,
    ensures
        Some(custom_views(all@)) == customs_of_lines(split(custom_structures@, '#')),
{
    match read_custom_structures_from_str(custom_structures) {
        Some(all) => all,
        None => Vec::new(),
    }
}

/// The lines of the custom structures, joined by `#`.
pub fn turn_custom_structures_to_str(custom_structures: Vec<CustomStructure>) -> (text: String)
    ensures
        text@ == joined_lines(lines_of_customs(custom_views(custom_structures@)), '#'),
{
    CustomStructure::stringify(&custom_structures)
}

/// A change of the first custom structure of an id that keeps the ids of the list
/// keeps every id findable.
pub proof fn lemma_change_keeps_ids(
    all: Seq<CustomStructureView>,
    id: Seq<char>,
    change: spec_fn(CustomStructureView) -> CustomStructureView,
    wanted: Seq<char>,
)
    requires
        forall|item: CustomStructureView| (#[trigger] change(item)).id == item.id,
        is_among(ids_of(all), wanted),
    ensures
        is_among(ids_of(changed_first(all, id, change).list), wanted),
{
    let after = changed_first(all, id, change).list;
    assert(ids_of(after) =~= ids_of(all)) by {
        lemma_first_index_is(ids_of(all), id);
    }
}

/// A custom structure that was created can be found by the id that it was
/// created under.
pub proof fn law_created_custom_structure_exists(
    all: Seq<CustomStructureView>,
    id: Seq<char>,
    name: Seq<char>,
)
    requires
        created(all, id, name).error is None,
    ensures
        is_among(ids_of(created(all, id, name).list), id),
{
    let start = all.push(blank());
    let with_id = id_updated(start, placeholder_id(), id);
    lemma_trimmed_alnum(id, seq!['_', '-']);
    lemma_first_index_is(ids_of(start), placeholder_id());
    let at = first_index(ids_of(start), placeholder_id());
    assert(ids_of(with_id.list)[at] == id);
    lemma_first_index_is(ids_of(with_id.list), id);
    assert(is_among(ids_of(with_id.list), id));
    lemma_change_keeps_ids(
        with_id.list,
        id,
        |custom: CustomStructureView| CustomStructureView { name: trimmed(name), ..custom },
        id,
    );
}

/// No custom structure of the id is left in the list without them.
pub proof fn lemma_without_id(all: Seq<CustomStructureView>, id: Seq<char>)
    ensures
        !is_among(ids_of(without_id(all, id)), id),
    decreases all.len(),
{
    let left = without_id(all, id);
    if all.len() > 0 {
        lemma_without_id(all.skip(1), id);
        let rest = without_id(all.skip(1), id);
        lemma_first_index_is(ids_of(rest), id);
        lemma_first_index_is(ids_of(left), id);
        if all[0].id != id {
            assert(ids_of(left).skip(1) =~= ids_of(rest));
        }
    } else {
        assert(ids_of(left).len() == 0);
    }
}

/// After a deletion that succeeds, no custom structure has the id.
pub proof fn law_deleted_is_gone(all: Seq<CustomStructureView>, id: Seq<char>)
    requires
        deleted(all, id).error is None,
    ensures
        !is_among(ids_of(deleted(all, id).list), id),
{
    lemma_without_id(all, id);
}

} // verus!
