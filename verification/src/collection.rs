//! Collections: the kinds of records that a project keeps, each with its
//! structures and custom structures.

use crate::custom_structures::{
    created as custom_created, custom_views, deleted as custom_deleted, lines_of_customs,
    put_custom, rejoin, rejoined, structures_set as custom_structures_set, with_custom,
    CustomStructure, CustomStructureView,
};
use crate::structures::{
    can_read_all, deleted as structure_deleted, lines_of_structures, put_structure,
    read_structures, reserved, structure_views, structures_of_text, with_structure, Structure,
    StructureView,
};
use crate::text::{
    all_alnum_or, chars_of, check_length, ends, failed, fine, first_index, has_none_of,
    is_alnum_or, is_among, joined_lines, lemma_first_index, lemma_first_index_is,
    lemma_trimmed_alnum, length_error, none_of, push_line,
    record_lines, same_text, split, split_keeping, split_on, string_of, trim, trimmed, views,
    Outcome,
};
use vstd::prelude::*;

verus! {

/// One collection.
#[derive(Default, Debug, Clone)]
pub struct Collection {
    id: String,
    project_id: String,
    name: String,
    description: String,
    structures: Vec<Structure>,
    custom_structures: Vec<CustomStructure>,
}

/// What a `Collection` holds.
pub struct CollectionView {
    pub id: Seq<char>,
    pub project_id: Seq<char>,
    pub name: Seq<char>,
    pub description: Seq<char>,
    pub structures: Seq<StructureView>,
    pub custom_structures: Seq<CustomStructureView>,
}

impl View for Collection {
    type V = CollectionView;

    closed spec fn view(&self) -> CollectionView {
        CollectionView {
            id: self.id@,
            project_id: self.project_id@,
            name: self.name@,
            description: self.description@,
            structures: structure_views(self.structures@),
            custom_structures: custom_views(self.custom_structures@),
        }
    }
}

/// The views of a list of collections.
pub open spec fn collection_views(all: Seq<Collection>) -> Seq<CollectionView> {
    Seq::new(all.len(), |index: int| all[index]@)
}

/// The ids of the collections, in order.
pub open spec fn ids_of(all: Seq<CollectionView>) -> Seq<Seq<char>> {
    Seq::new(all.len(), |index: int| all[index].id)
}

/// The list without the collections of the given id.
pub open spec fn without_id(all: Seq<CollectionView>, id: Seq<char>) -> Seq<CollectionView>
    decreases all.len(),
{
    if all.len() == 0 {
        all
    } else if all[0].id == id {
        without_id(all.skip(1), id)
    } else {
        seq![all[0]] + without_id(all.skip(1), id)
    }
}

/// The id that a collection has while it is being created.
pub open spec fn placeholder_id() -> Seq<char> {
    "test;"@
}

/// A collection with the placeholder id and nothing else.
pub open spec fn blank() -> CollectionView {
    CollectionView {
        id: placeholder_id(),
        project_id: Seq::empty(),
        name: Seq::empty(),
        description: Seq::empty(),
        structures: Seq::empty(),
        custom_structures: Seq::empty(),
    }
}

/// The list with `change` put on the first collection of the id; without
/// such a collection the operation fails.
pub open spec fn changed_first(
    all: Seq<CollectionView>,
    id: Seq<char>,
    change: spec_fn(CollectionView) -> CollectionView,
) -> Outcome<CollectionView> {
    let at = first_index(ids_of(all), id);
    if at == all.len() {
        failed(all, "Error: Collection not found"@)
    } else {
        fine(all.update(at, change(all[at])))
    }
}

/// What `Collection::update_id` does: the first collection of the id gets
/// the trimmed new id. The new id must not be the id of a collection of
/// the list, may hold ASCII letters and digits, `_` and `-`, and has,
/// trimmed, between 1 and 100 bytes.
pub open spec fn id_updated(all: Seq<CollectionView>, id: Seq<char>, new_id: Seq<char>) -> Outcome<
    CollectionView,
> {
    if is_among(ids_of(all), new_id) {
        failed(all, "Error: id is already in use"@)
    } else if !all_alnum_or(new_id, seq!['_', '-']) {
        failed(all, "Error: new_id contains an invalid character"@)
    } else {
        match length_error(
            new_id,
            1,
            100,
            "Error: id does not contain enough characters"@,
            "Error: new_id contains too many characters"@,
        ) {
            Some(message) => failed(all, message),
            None => changed_first(
                all,
                id,
                |collection: CollectionView| CollectionView { id: trimmed(new_id), ..collection },
            ),
        }
    }
}

/// What `Collection::update_project_id` does: the first collection of the id gets the
/// trimmed project id, which may hold ASCII letters and digits and the characters
/// `_-`, and has, trimmed, between 1 and 100 bytes.
pub open spec fn project_id_updated(
    all: Seq<CollectionView>,
    id: Seq<char>,
    project_id: Seq<char>,
) -> Outcome<CollectionView> {
    if !all_alnum_or(project_id, seq!['_', '-']) {
        failed(all, "Error: project_id contains an invalid character"@)
    } else {
        match length_error(
            project_id,
            1,
            100,
            "Error: project_id does not contain enough characters"@,
            "Error: project_id contains too many characters"@,
        ) {
            Some(message) => failed(all, message),
            None => changed_first(
                all,
                id,
                |collection: CollectionView|
                    CollectionView { project_id: trimmed(project_id), ..collection },
            ),
        }
    }
}

/// What `Collection::update_name` does: the first collection of the id gets the
/// trimmed name, which may hold ASCII letters and digits and the characters
/// `_ `, and has, trimmed, between 1 and 100 bytes.
pub open spec fn name_updated(all: Seq<CollectionView>, id: Seq<char>, name: Seq<char>) -> Outcome<
    CollectionView,
> {
    if !all_alnum_or(name, seq!['_', ' ']) {
        failed(all, "Error: name contains an invalid character"@)
    } else {
        match length_error(
            name,
            1,
            100,
            "Error: name does not contain enough characters"@,
            "Error: name contains too many characters"@,
        ) {
            Some(message) => failed(all, message),
            None => changed_first(
                all,
                id,
                |collection: CollectionView| CollectionView { name: trimmed(name), ..collection },
            ),
        }
    }
}

/// What `Collection::update_description` does: the first collection of
/// the id gets the trimmed description, which holds no reserved character
/// and has, trimmed, between 1 and 400 bytes.
pub open spec fn description_updated(
    all: Seq<CollectionView>,
    id: Seq<char>,
    description: Seq<char>,
) -> Outcome<CollectionView> {
    if !none_of(description, reserved()) {
        failed(all, "Error: description contains an invalid character"@)
    } else {
        match length_error(
            description,
            1,
            400,
            "Error: description does not contain enough characters"@,
            "Error: description contains too many characters"@,
        ) {
            Some(message) => failed(all, message),
            None => changed_first(
                all,
                id,
                |collection: CollectionView|
                    CollectionView { description: trimmed(description), ..collection },
            ),
        }
    }
}

/// What `Collection::add_structure` does: the structure goes to the end of
/// the structures of the first collection of the id.
pub open spec fn structure_added(
    all: Seq<CollectionView>,
    id: Seq<char>,
    structure: StructureView,
) -> Outcome<CollectionView> {
    changed_first(
        all,
        id,
        |collection: CollectionView|
            CollectionView { structures: collection.structures.push(structure), ..collection },
    )
}

/// What `Collection::update_structure` does: in the first collection of
/// the id, the structure takes the place of every structure of its id, or
/// goes to the end where there is none.
pub open spec fn structure_updated(
    all: Seq<CollectionView>,
    id: Seq<char>,
    structure: StructureView,
) -> Outcome<CollectionView> {
    changed_first(
        all,
        id,
        |collection: CollectionView|
            CollectionView {
                structures: with_structure(collection.structures, structure),
                ..collection
            },
    )
}

/// What `Collection::add_custom_structure` does: the custom structure goes
/// to the end of the custom structures of the first collection of the id.
pub open spec fn custom_added(
    all: Seq<CollectionView>,
    id: Seq<char>,
    custom: CustomStructureView,
) -> Outcome<CollectionView> {
    changed_first(
        all,
        id,
        |collection: CollectionView|
            CollectionView {
                custom_structures: collection.custom_structures.push(custom),
                ..collection
            },
    )
}

/// What `Collection::update_custom_structure` does: in the first
/// collection of the id, the custom structure takes the place of every
/// custom structure of its id, or goes to the end where there is none.
pub open spec fn custom_updated(
    all: Seq<CollectionView>,
    id: Seq<char>,
    custom: CustomStructureView,
) -> Outcome<CollectionView> {
    changed_first(
        all,
        id,
        |collection: CollectionView|
            CollectionView {
                custom_structures: with_custom(collection.custom_structures, custom),
                ..collection
            },
    )
}

/// What `Collection::set_structures` does: the first collection of the id
/// gets the given structures in place of its own.
pub open spec fn structures_set(
    all: Seq<CollectionView>,
    id: Seq<char>,
    structures: Seq<StructureView>,
) -> Outcome<CollectionView> {
    changed_first(all, id, |collection: CollectionView| CollectionView { structures, ..collection })
}

/// What `Collection::set_custom_structures` does: the first collection of
/// the id gets the given custom structures in place of its own.
pub open spec fn customs_set(
    all: Seq<CollectionView>,
    id: Seq<char>,
    custom_structures: Seq<CustomStructureView>,
) -> Outcome<CollectionView> {
    changed_first(
        all,
        id,
        |collection: CollectionView| CollectionView { custom_structures, ..collection },
    )
}

/// What `Collection::remove_structure` does: the first collection of the
/// id loses its structures of the given id; it is an error where it has
/// none.
pub open spec fn structure_removed(
    all: Seq<CollectionView>,
    id: Seq<char>,
    structure_id: Seq<char>,
) -> Outcome<CollectionView> {
    let at = first_index(ids_of(all), id);
    if at == all.len() {
        failed(all, "Error: Collection not found"@)
    } else {
        let left = structure_deleted(all[at].structures, structure_id);
        match left.error {
            Some(message) => failed(all, message),
            None => fine(all.update(at, CollectionView { structures: left.list, ..all[at] })),
        }
    }
}

/// What `Collection::remove_custom_structure` does: the first collection
/// of the id loses its custom structures of the given id; it is an error
/// where it has none.
pub open spec fn custom_removed(
    all: Seq<CollectionView>,
    id: Seq<char>,
    custom_structure_id: Seq<char>,
) -> Outcome<CollectionView> {
    let at = first_index(ids_of(all), id);
    if at == all.len() {
        failed(all, "Error: Collection not found"@)
    } else {
        let left = custom_deleted(all[at].custom_structures, custom_structure_id);
        match left.error {
            Some(message) => failed(all, message),
            None => fine(
                all.update(at, CollectionView { custom_structures: left.list, ..all[at] }),
            ),
        }
    }
}

/// What `Collection::delete` does: every collection of the id leaves the
/// list, unless there is none.
pub open spec fn deleted(all: Seq<CollectionView>, id: Seq<char>) -> Outcome<CollectionView> {
    if !is_among(ids_of(all), id) {
        failed(all, "Error: Collection not found"@)
    } else {
        fine(without_id(all, id))
    }
}

/// A failed step of a creation undone: the collections of the id are
/// deleted and the step's error stays.
pub open spec fn undone(step: Outcome<CollectionView>, id: Seq<char>) -> Outcome<CollectionView> {
    failed(deleted(step.list, id).list, step.error->Some_0)
}

/// What `Collection::create` does.
///
/// A blank collection joins the list under the placeholder id and is then
/// given the id, the project id, the name and the description, each as its
/// update does it and each found by the id as it was passed in. The first
/// update that fails ends the creation: the collections of the id that the
/// search went by are deleted, and the update's error is the result.
pub open spec fn created(
    all: Seq<CollectionView>,
    id: Seq<char>,
    project_id: Seq<char>,
    name: Seq<char>,
    description: Seq<char>,
) -> Outcome<CollectionView> {
    let with_id = id_updated(all.push(blank()), placeholder_id(), id);
    if with_id.error is Some {
        undone(with_id, placeholder_id())
    } else {
        let with_project = project_id_updated(with_id.list, id, project_id);
        if with_project.error is Some {
            undone(with_project, id)
        } else {
            let with_name = name_updated(with_project.list, id, name);
            if with_name.error is Some {
                undone(with_name, id)
            } else {
                let with_description = description_updated(with_name.list, id, description);
                if with_description.error is Some {
                    undone(with_description, id)
                } else {
                    with_description
                }
            }
        }
    }
}

/// The line that writes a collection: its four texts with `;` between
/// them, then `>` and its structures, then `>` and its custom structures.
pub open spec fn line_of_collection(collection: CollectionView) -> Seq<char> {
    collection.id + seq![';'] + collection.project_id + seq![';'] + collection.name + seq![';']
        + collection.description + seq!['>'] + joined_lines(
        lines_of_structures(collection.structures),
        '%',
    ) + seq!['>'] + joined_lines(lines_of_customs(collection.custom_structures), '#')
}

/// The lines that write the collections.
pub open spec fn lines_of_collections(all: Seq<CollectionView>) -> Seq<Seq<char>> {
    Seq::new(all.len(), |index: int| line_of_collection(all[index]))
}

/// How reading the custom structures of a line ends.
pub enum Customs {
    /// All were read.
    Read(Seq<CustomStructureView>),
    /// One could not be created or filled.
    Refused(Seq<char>),
    /// One holds a structure that cannot be read.
    Unreadable,
}

/// The custom structures that the pieces write, added to those read so
/// far. Each piece gives its id, its name and its structures; the first
/// piece without a second field ends the reading.
pub open spec fn customs_read(done: Seq<CustomStructureView>, pieces: Seq<Seq<char>>) -> Customs
    decreases pieces.len(),
{
    if pieces.len() == 0 {
        Customs::Read(done)
    } else {
        let fields = split(pieces[0], '|');
        if fields.len() <= 1 {
            Customs::Read(done)
        } else {
            let made = custom_created(done, fields[0], fields[1]);
            match made.error {
                Some(message) => Customs::Refused(message),
                None => if !can_read_all(rejoined(fields, 2, '|')) {
                    Customs::Unreadable
                } else {
                    let filled = custom_structures_set(
                        made.list,
                        fields[0],
                        structures_of_text(rejoined(fields, 2, '|')),
                    );
                    match filled.error {
                        Some(message) => Customs::Refused(message),
                        None => customs_read(filled.list, pieces.skip(1)),
                    }
                },
            }
        }
    }
}

/// What `Collection::from_string` does with a line, where it does
/// anything.
///
/// The line holds id, project id and name with `;` behind each, then the
/// description, `>`, the structures, `>` and the custom structures. The
/// collection is created from the four texts; then its structures and
/// custom structures are read and set. The first step that fails gives its
/// message and leaves the list as the steps before it made it. There is no
/// outcome for a line that lacks a part or holds a structure that cannot
/// be read.
pub open spec fn collection_read(all: Seq<CollectionView>, line: Seq<char>) -> Option<
    Outcome<CollectionView>,
> {
    let texts = split(line, ';');
    let parts = split(line, '>');
    if texts.len() < 4 {
        None
    } else {
        let made = created(all, texts[0], texts[1], texts[2], split(texts[3], '>')[0]);
        if made.error is Some {
            Some(made)
        } else if parts.len() < 3 || !can_read_all(parts[1]) {
            None
        } else {
            match customs_read(Seq::empty(), split(parts[2], '#')) {
                Customs::Unreadable => None,
                Customs::Refused(message) => Some(failed(made.list, message)),
                Customs::Read(customs) => {
                    let with_structures = structures_set(
                        made.list,
                        texts[0],
                        structures_of_text(parts[1]),
                    );
                    if with_structures.error is Some {
                        Some(with_structures)
                    } else {
                        Some(customs_set(with_structures.list, texts[0], customs))
                    }
                },
            }
        }
    }
}

/// The list after the collections of the lines have been read into it, one
/// after the other; there is none where a line has no outcome.
pub open spec fn collections_read(all: Seq<CollectionView>, lines: Seq<Seq<char>>) -> Option<
    Seq<CollectionView>,
>
    decreases lines.len(),
{
    if lines.len() == 0 {
        Some(all)
    } else {
        match collection_read(all, lines[0]) {
            None => None,
            Some(outcome) => collections_read(outcome.list, lines.skip(1)),
        }
    }
}

/// The message of an outcome, empty where there is none.
pub open spec fn message_of(outcome: Outcome<CollectionView>) -> Seq<char> {
    match outcome.error {
        Some(message) => message,
        None => Seq::empty(),
    }
}

impl Collection {
    /// Position of the first collection with the id, or the length of the
    /// list.
    fn position(all_collections: &Vec<Collection>, id: &str) -> (at: usize)
        ensures
            at == first_index(ids_of(collection_views(all_collections@)), id@),
            at <= all_collections.len(),
    {
        let ghost ids = ids_of(collection_views(all_collections@));
        let mut at: usize = 0;
        while at < all_collections.len()
            invariant
                at <= all_collections.len(),
                ids == ids_of(collection_views(all_collections@)),
                forall|index: int| 0 <= index < at ==> #[trigger] ids[index] != id@,
            decreases all_collections.len() - at,
        {
            if same_text(all_collections[at].id.as_str(), id) {
                proof {
                    assert(ids[at as int] == id@);
                    lemma_first_index(ids, id@, at as int);
                }
                return at;
            }
            assert(ids[at as int] != id@);
            at = at + 1;
        }
        proof {
            lemma_first_index(ids, id@, at as int);
        }
        at
    }

    /// A copy of the collection.
    pub fn copy(&self) -> (collection: Collection)
        ensures
            collection@ == self@,
    {
        Collection {
            id: self.id.clone(),
            project_id: self.project_id.clone(),
            name: self.name.clone(),
            description: self.description.clone(),
            structures: Structure::copy_all(&self.structures),
            custom_structures: CustomStructure::copy_all(&self.custom_structures),
        }
    }

    /// Puts `collection` in the place `at` of the list.
    fn put(all_collections: &mut Vec<Collection>, at: usize, collection: Collection)
        requires
            at < old(all_collections).len(),
        ensures
            final(all_collections)@.len() == old(all_collections)@.len(),
            collection_views(final(all_collections)@) == collection_views(
                old(all_collections)@,
            ).update(at as int, collection@),
    {
        all_collections[at] = collection;
        assert(collection_views(all_collections@) =~= collection_views(
            old(all_collections)@,
        ).update(at as int, collection@));
    }

    /// Adds a collection; see `created`.
    pub fn create(
        collections: &mut Vec<Collection>,
        id: &str,
        project_id: &str,
        name: &str,
        description: &str,
    ) -> (result: Result<(), String>)
        ensures
            ends(
                result,
                collection_views(final(collections)@),
                created(collection_views(old(collections)@), id@, project_id@, name@, description@),
            ),
    {
        let tmp_id = String::from_str("test;");
        let new_id = String::from_str(id);
        let ghost before = collection_views(collections@);
        let new_collection = Collection {
            id: tmp_id.clone(),
            project_id: String::new(),
            name: String::new(),
            description: String::new(),
            structures: Vec::new(),
            custom_structures: Vec::new(),
        };
        assert(new_collection@.structures =~= Seq::empty());
        assert(new_collection@.custom_structures =~= Seq::empty());
        collections.push(new_collection);
        assert(collection_views(collections@) =~= before.push(blank()));
        if let Err(error) = Self::update_id(collections, &tmp_id, id) {
            let _ = Self::delete(collections, &tmp_id);
            return Err(error);
        }
        if let Err(error) = Self::update_project_id(collections, &new_id, project_id) {
            let _ = Self::delete(collections, &new_id);
            return Err(error);
        }
        if let Err(error) = Self::update_name(collections, &new_id, name) {
            let _ = Self::delete(collections, &new_id);
            return Err(error);
        }
        if let Err(error) = Self::update_description(collections, &new_id, description) {
            let _ = Self::delete(collections, &new_id);
            return Err(error);
        }
        Ok(())
    }

    /// Whether a collection of the list has the id.
    pub fn exist(all_collections: &Vec<Collection>, id: &str) -> (found: bool)
        ensures
            found == is_among(ids_of(collection_views(all_collections@)), id@),
    {
        Self::position(all_collections, id) < all_collections.len()
    }

    /// Changes the id of a collection; see `id_updated`.
    pub fn update_id(
        all_collections: &mut Vec<Collection>,
        id: &String,
        new_id: &str,
    ) -> (result: Result<(), String>)
        ensures
            ends(
                result,
                collection_views(final(all_collections)@),
                id_updated(collection_views(old(all_collections)@), id@, new_id@),
            ),
    {
        if Self::position(all_collections, new_id) < all_collections.len() {
            return Err(String::from_str("Error: id is already in use"));
        }
        let chars = chars_of(new_id);
        let extra: Vec<char> = vec!['_', '-'];
        assert(extra@ =~= seq!['_', '-']);
        if !is_alnum_or(&chars, &extra) {
            return Err(String::from_str("Error: new_id contains an invalid character"));
        }
        let short = trim(&chars);
        if let Some(message) = check_length(
            &short,
            1,
            100,
            "Error: id does not contain enough characters",
            "Error: new_id contains too many characters",
        ) {
            return Err(message);
        }
        let at = Self::position(all_collections, id.as_str());
        if at == all_collections.len() {
            return Err(String::from_str("Error: Collection not found"));
        }
        let mut collection = all_collections[at].copy();
        collection.id = short;
        Self::put(all_collections, at, collection);
        Ok(())
    }

    /// Changes the project id of a collection; see `project_id_updated`.
    pub fn update_project_id(
        all_collections: &mut Vec<Collection>,
        id: &String,
        project_id: &str,
    ) -> (result: Result<(), String>)
        ensures
            ends(
                result,
                collection_views(final(all_collections)@),
                project_id_updated(collection_views(old(all_collections)@), id@, project_id@),
            ),
    {
        let chars = chars_of(project_id);
        let extra: Vec<char> = vec!['_', '-'];
        assert(extra@ =~= seq!['_', '-']);
        if !is_alnum_or(&chars, &extra) {
            return Err(String::from_str("Error: project_id contains an invalid character"));
        }
        let short = trim(&chars);
        if let Some(message) = check_length(
            &short,
            1,
            100,
            "Error: project_id does not contain enough characters",
            "Error: project_id contains too many characters",
        ) {
            return Err(message);
        }
        let at = Self::position(all_collections, id.as_str());
        if at == all_collections.len() {
            return Err(String::from_str("Error: Collection not found"));
        }
        let mut collection = all_collections[at].copy();
        collection.project_id = short;
        Self::put(all_collections, at, collection);
        Ok(())
    }

    /// Changes the name of a collection; see `name_updated`.
    pub fn update_name(
        all_collections: &mut Vec<Collection>,
        id: &String,
        name: &str,
    ) -> (result: Result<(), String>)
        ensures
            ends(
                result,
                collection_views(final(all_collections)@),
                name_updated(collection_views(old(all_collections)@), id@, name@),
            ),
    {
        let chars = chars_of(name);
        let extra: Vec<char> = vec!['_', ' '];
        assert(extra@ =~= seq!['_', ' ']);
        if !is_alnum_or(&chars, &extra) {
            return Err(String::from_str("Error: name contains an invalid character"));
        }
        let short = trim(&chars);
        if let Some(message) = check_length(
            &short,
            1,
            100,
            "Error: name does not contain enough characters",
            "Error: name contains too many characters",
        ) {
            return Err(message);
        }
        let at = Self::position(all_collections, id.as_str());
        if at == all_collections.len() {
            return Err(String::from_str("Error: Collection not found"));
        }
        let mut collection = all_collections[at].copy();
        collection.name = short;
        Self::put(all_collections, at, collection);
        Ok(())
    }

    /// Changes the description of a collection; see `description_updated`.
    pub fn update_description(
        all_collections: &mut Vec<Collection>,
        id: &String,
        description: &str,
    ) -> (result: Result<(), String>)
        ensures
            ends(
                result,
                collection_views(final(all_collections)@),
                description_updated(collection_views(old(all_collections)@), id@, description@),
            ),
    {
        let chars = chars_of(description);
        let banned: Vec<char> = vec![';', '@', '>', '#'];
        assert(banned@ =~= reserved());
        if !has_none_of(&chars, &banned) {
            return Err(String::from_str("Error: description contains an invalid character"));
        }
        let short = trim(&chars);
        if let Some(message) = check_length(
            &short,
            1,
            400,
            "Error: description does not contain enough characters",
            "Error: description contains too many characters",
        ) {
            return Err(message);
        }
        let at = Self::position(all_collections, id.as_str());
        if at == all_collections.len() {
            return Err(String::from_str("Error: Collection not found"));
        }
        let mut collection = all_collections[at].copy();
        collection.description = short;
        Self::put(all_collections, at, collection);
        Ok(())
    }

    /// Adds a structure to a collection; see `structure_added`.
    pub fn add_structure(
        all_collections: &mut Vec<Collection>,
        id: &String,
        structure: Structure,
    ) -> (result: Result<(), String>)
        ensures
            ends(
                result,
                collection_views(final(all_collections)@),
                structure_added(collection_views(old(all_collections)@), id@, structure@),
            ),
    {
        let at = Self::position(all_collections, id.as_str());
        if at == all_collections.len() {
            return Err(String::from_str("Error: Collection not found"));
        }
        let mut collection = all_collections[at].copy();
        let ghost before = structure_views(collection.structures@);
        collection.structures.push(structure);
        assert(structure_views(collection.structures@) =~= before.push(structure@));
        Self::put(all_collections, at, collection);
        Ok(())
    }

    /// Puts a structure into a collection; see `structure_updated`.
    pub fn update_structure(
        all_collections: &mut Vec<Collection>,
        id: &String,
        structure: Structure,
    ) -> (result: Result<(), String>)
        ensures
            ends(
                result,
                collection_views(final(all_collections)@),
                structure_updated(collection_views(old(all_collections)@), id@, structure@),
            ),
    {
        let at = Self::position(all_collections, id.as_str());
        if at == all_collections.len() {
            return Err(String::from_str("Error: Collection not found"));
        }
        let mut collection = all_collections[at].copy();
        put_structure(&mut collection.structures, structure);
        Self::put(all_collections, at, collection);
        Ok(())
    }

    /// Adds a custom structure to a collection; see `custom_added`.
    pub fn add_custom_structure(
        all_collections: &mut Vec<Collection>,
        id: &String,
        custom_structure: CustomStructure,
    ) -> (result: Result<(), String>)
        ensures
            ends(
                result,
                collection_views(final(all_collections)@),
                custom_added(collection_views(old(all_collections)@), id@, custom_structure@),
            ),
    {
        let at = Self::position(all_collections, id.as_str());
        if at == all_collections.len() {
            return Err(String::from_str("Error: Collection not found"));
        }
        let mut collection = all_collections[at].copy();
        let ghost before = custom_views(collection.custom_structures@);
        collection.custom_structures.push(custom_structure);
        assert(custom_views(collection.custom_structures@) =~= before.push(custom_structure@));
        Self::put(all_collections, at, collection);
        Ok(())
    }

    /// Puts a custom structure into a collection; see `custom_updated`.
    pub fn update_custom_structure(
        all_collections: &mut Vec<Collection>,
        id: &String,
        custom_structure: CustomStructure,
    ) -> (result: Result<(), String>)
        ensures
            ends(
                result,
                collection_views(final(all_collections)@),
                custom_updated(collection_views(old(all_collections)@), id@, custom_structure@),
            ),
    {
        let at = Self::position(all_collections, id.as_str());
        if at == all_collections.len() {
            return Err(String::from_str("Error: Collection not found"));
        }
        let mut collection = all_collections[at].copy();
        put_custom(&mut collection.custom_structures, custom_structure);
        Self::put(all_collections, at, collection);
        Ok(())
    }

    /// Replaces the structures of a collection; see `structures_set`.
    pub fn set_structures(
        all_collections: &mut Vec<Collection>,
        id: &String,
        structures: Vec<Structure>,
    ) -> (result: Result<(), String>)
        ensures
            ends(
                result,
                collection_views(final(all_collections)@),
                structures_set(
                    collection_views(old(all_collections)@),
                    id@,
                    structure_views(structures@),
                ),
            ),
    {
        let at = Self::position(all_collections, id.as_str());
        if at == all_collections.len() {
            return Err(String::from_str("Error: Collection not found"));
        }
        let mut collection = all_collections[at].copy();
        collection.structures = structures;
        Self::put(all_collections, at, collection);
        Ok(())
    }

    /// Replaces the custom structures of a collection; see `customs_set`.
    pub fn set_custom_structures(
        all_collections: &mut Vec<Collection>,
        id: &String,
        custom_structures: Vec<CustomStructure>,
    ) -> (result: Result<(), String>)
        ensures
            ends(
                result,
                collection_views(final(all_collections)@),
                customs_set(
                    collection_views(old(all_collections)@),
                    id@,
                    custom_views(custom_structures@),
                ),
            ),
    {
        let at = Self::position(all_collections, id.as_str());
        if at == all_collections.len() {
            return Err(String::from_str("Error: Collection not found"));
        }
        let mut collection = all_collections[at].copy();
        collection.custom_structures = custom_structures;
        Self::put(all_collections, at, collection);
        Ok(())
    }

    /// Takes a structure out of a collection; see `structure_removed`.
    pub fn remove_structure(
        all_collections: &mut Vec<Collection>,
        id: &String,
        structure_id: &String,
    ) -> (result: Result<(), String>)
        ensures
            ends(
                result,
                collection_views(final(all_collections)@),
                structure_removed(collection_views(old(all_collections)@), id@, structure_id@),
            ),
    {
        let at = Self::position(all_collections, id.as_str());
        if at == all_collections.len() {
            return Err(String::from_str("Error: Collection not found"));
        }
        let mut collection = all_collections[at].copy();
        if let Err(error) = Structure::delete(&mut collection.structures, structure_id) {
            return Err(error);
        }
        Self::put(all_collections, at, collection);
        Ok(())
    }

    /// Takes a custom structure out of a collection; see `custom_removed`.
    pub fn remove_custom_structure(
        all_collections: &mut Vec<Collection>,
        id: &String,
        custom_structure_id: &String,
    ) -> (result: Result<(), String>)
        ensures
            ends(
                result,
                collection_views(final(all_collections)@),
                custom_removed(
                    collection_views(old(all_collections)@),
                    id@,
                    custom_structure_id@,
                ),
            ),
    {
        let at = Self::position(all_collections, id.as_str());
        if at == all_collections.len() {
            return Err(String::from_str("Error: Collection not found"));
        }
        let mut collection = all_collections[at].copy();
        if let Err(error) = CustomStructure::delete(
            &mut collection.custom_structures,
            custom_structure_id,
        ) {
            return Err(error);
        }
        Self::put(all_collections, at, collection);
        Ok(())
    }

    /// Deletes the collections of an id; see `deleted`.
    pub fn delete(all_collections: &mut Vec<Collection>, id: &String) -> (result: Result<(), String>)
        ensures
            ends(
                result,
                collection_views(final(all_collections)@),
                deleted(collection_views(old(all_collections)@), id@),
            ),
    {
        if Self::position(all_collections, id.as_str()) == all_collections.len() {
            return Err(String::from_str("Error: Collection not found"));
        }
        let ghost before = collection_views(all_collections@);
        let mut at: usize = all_collections.len();
        assert(before.skip(at as int) =~= Seq::empty());
        while at > 0
            invariant
                at <= all_collections.len(),
                at <= before.len(),
                collection_views(all_collections@).take(at as int) == before.take(at as int),
                collection_views(all_collections@).skip(at as int) == without_id(
                    before.skip(at as int),
                    id@,
                ),
            decreases at,
        {
            at = at - 1;
            let ghost current = collection_views(all_collections@);
            let ghost tail = before.skip(at as int);
            assert(tail.skip(1) =~= before.skip(at + 1));
            assert(tail[0] == before[at as int]);
            assert(current[at as int] == current.take(at + 1)[at as int]);
            assert(before[at as int] == before.take(at + 1)[at as int]);
            if same_text(all_collections[at].id.as_str(), id.as_str()) {
                all_collections.remove(at);
                assert(collection_views(all_collections@).skip(at as int) =~= current.skip(at + 1));
            } else {
                assert(current.skip(at as int) =~= seq![current[at as int]] + current.skip(
                    at + 1,
                ));
            }
            assert(collection_views(all_collections@).take(at as int) =~= current.take(
                at + 1,
            ).take(at as int));
            assert(before.take(at as int) =~= before.take(at + 1).take(at as int));
        }
        assert(collection_views(all_collections@).skip(0) =~= collection_views(all_collections@));
        assert(before.skip(0) =~= before);
        Ok(())
    }

    /// The line that writes the collection.
    pub fn to_string(collection: Collection) -> (line: String)
        ensures
            line@ == line_of_collection(collection@),
    {
        Self::line(&collection)
    }

    /// The line that writes the collection.
    fn line(collection: &Collection) -> (line: String)
        ensures
            line@ == line_of_collection(collection@),
    {
        proof {
            reveal_strlit(";");
            reveal_strlit(">");
        }
        assert(";"@ =~= seq![';']);
        assert(">"@ =~= seq!['>']);
        let stringified_structures = Structure::stringify(&collection.structures);
        let stringified_custom_structures = CustomStructure::stringify(
            &collection.custom_structures,
        );
        let mut line = String::new();
        line.append(collection.id.as_str());
        line.append(";");
        line.append(collection.project_id.as_str());
        line.append(";");
        line.append(collection.name.as_str());
        line.append(";");
        line.append(collection.description.as_str());
        line.append(">");
        line.append(stringified_structures.as_str());
        line.append(">");
        line.append(stringified_custom_structures.as_str());
        assert(line@ =~= line_of_collection(collection@));
        line
    }

    /// Reads the custom structures that the pieces of a line write. There
    /// is no result where one holds a structure that cannot be read.
    fn read_customs(pieces: &Vec<Vec<char>>) -> (result: Option<
        Result<Vec<CustomStructure>, String>,
    >)
        ensures
            match customs_read(Seq::empty(), views(pieces@)) {
                Customs::Read(customs) => result matches Some(Ok(list)) && custom_views(list@)
                    == customs,
                Customs::Refused(message) => result matches Some(Err(text)) && text@ == message,
                Customs::Unreadable => result is None,
            },
    {
        let ghost all = views(pieces@);
        let mut final_custom_structures: Vec<CustomStructure> = Vec::new();
        let mut at: usize = 0;
        assert(custom_views(final_custom_structures@) =~= Seq::empty());
        assert(all.skip(0) =~= all);
        while at < pieces.len()
            invariant
                at <= pieces.len(),
                all == views(pieces@),
                customs_read(Seq::empty(), all) == customs_read(
                    custom_views(final_custom_structures@),
                    all.skip(at as int),
                ),
            decreases pieces.len() - at,
        {
            let ghost rest = all.skip(at as int);
            assert(rest[0] == pieces@[at as int]@);
            assert(rest.skip(1) =~= all.skip(at + 1));
            let current = split_on(&pieces[at], '|');
            let ghost fields = views(current@);
            assert(fields.len() == current@.len());
            if current.len() <= 1 {
                return Some(Ok(final_custom_structures));
            }
            assert(fields[0] == current@[0]@);
            assert(fields[1] == current@[1]@);
            let id = string_of(&current[0]);
            if let Err(error) = CustomStructure::create(
                &mut final_custom_structures,
                id.as_str(),
                string_of(&current[1]).as_str(),
            ) {
                return Some(Err(error));
            }
            let current_structures = rejoin(&current);
            let mut final_structures_custom: Vec<Structure> = Vec::new();
            assert(structure_views(final_structures_custom@) =~= Seq::empty());
            if !read_structures(&current_structures, &mut final_structures_custom) {
                return None;
            }
            if let Err(error) = CustomStructure::set_structures(
                &mut final_custom_structures,
                &id,
                final_structures_custom,
            ) {
                return Some(Err(error));
            }
            at = at + 1;
        }
        Some(Ok(final_custom_structures))
    }

    /// Reads a collection out of a line into the list, where the line can
    /// be read; see `collection_read`. The result is the message of the
    /// error, and empty where there is none. Where the line cannot be read
    /// there is no result, and the list is left as the steps before made
    /// it.
    pub fn try_from_string(
        all_collections: &mut Vec<Collection>,
        collection_str: &str,
    ) -> (message: Option<String>)
        ensures
            match collection_read(collection_views(old(all_collections)@), collection_str@) {
                Some(outcome) => message matches Some(text) && text@ == message_of(outcome)
                    && collection_views(final(all_collections)@) == outcome.list,
                None => message is None,
            },
    {
        Self::try_from_chars(all_collections, &chars_of(collection_str))
    }

    /// Reads a collection out of a line into the list; see
    /// `collection_read`. The result is the message of the error, and
    /// empty where there is none.
    pub fn from_string(
        all_collections: &mut Vec<Collection>,
        collection_str: &str,
    ) -> (message: String)
        requires
            collection_read(collection_views(old(all_collections)@), collection_str@) is Some,
        ensures
            collection_views(final(all_collections)@) == collection_read(
                collection_views(old(all_collections)@),
                collection_str@,
            )->Some_0.list,
            message@ == message_of(
                collection_read(collection_views(old(all_collections)@), collection_str@)->Some_0,
            ),
    {
        match Self::try_from_chars(all_collections, &chars_of(collection_str)) {
            Some(message) => message,
            None => String::new(),
        }
    }

    /// Reads a collection out of the characters of a line into the list.
    fn try_from_chars(all_collections: &mut Vec<Collection>, line: &Vec<char>) -> (message: Option<
        String,
    >)
        ensures
            match collection_read(collection_views(old(all_collections)@), line@) {
                Some(outcome) => message matches Some(text) && text@ == message_of(outcome)
                    && collection_views(final(all_collections)@) == outcome.list,
                None => message is None,
            },
    {
        let current_collection = split_on(line, ';');
        let ghost texts = views(current_collection@);
        assert(texts.len() == current_collection@.len());
        if current_collection.len() < 4 {
            return None;
        }
        assert(texts[0] == current_collection@[0]@);
        assert(texts[1] == current_collection@[1]@);
        assert(texts[2] == current_collection@[2]@);
        assert(texts[3] == current_collection@[3]@);
        let collection_id = string_of(&current_collection[0]);
        let description = split_on(&current_collection[3], '>');
        assert(views(description@).len() == description@.len());
        proof {
            crate::text::lemma_split_nonempty(texts[3], '>');
        }
        assert(views(description@)[0] == description@[0]@);
        if let Err(error) = Self::create(
            all_collections,
            collection_id.as_str(),
            string_of(&current_collection[1]).as_str(),
            string_of(&current_collection[2]).as_str(),
            string_of(&description[0]).as_str(),
        ) {
            return Some(error);
        }
        let parts = split_on(line, '>');
        let ghost pieces = views(parts@);
        assert(pieces.len() == parts@.len());
        if parts.len() < 3 {
            return None;
        }
        assert(pieces[1] == parts@[1]@);
        assert(pieces[2] == parts@[2]@);
        let mut final_structures: Vec<Structure> = Vec::new();
        assert(structure_views(final_structures@) =~= Seq::empty());
        if !read_structures(&parts[1], &mut final_structures) {
            return None;
        }
        let individual_custom_structures = split_on(&parts[2], '#');
        let final_custom_structures = match Self::read_customs(&individual_custom_structures) {
            Some(Ok(list)) => list,
            Some(Err(error)) => {
                return Some(error);
            },
            None => {
                return None;
            },
        };
        if let Err(error) = Self::set_structures(all_collections, &collection_id, final_structures) {
            return Some(error);
        }
        if let Err(error) = Self::set_custom_structures(
            all_collections,
            &collection_id,
            final_custom_structures,
        ) {
            return Some(error);
        }
        Some(String::new())
    }

    /// Reads the collections that the lines write into a fresh list, one
    /// after the other.
    fn from_lines(lines: &Vec<Vec<char>>) -> (result: Option<Vec<Collection>>)
        ensures
            match collections_read(Seq::empty(), views(lines@)) {
                Some(list) => result matches Some(all) && collection_views(all@) == list,
                None => result is None,
            },
    {
        let ghost wanted = views(lines@);
        let mut final_collections: Vec<Collection> = Vec::new();
        let mut at: usize = 0;
        assert(collection_views(final_collections@) =~= Seq::empty());
        assert(wanted.skip(0) =~= wanted);
        while at < lines.len()
            invariant
                at <= lines.len(),
                wanted == views(lines@),
                collections_read(Seq::empty(), wanted) == collections_read(
                    collection_views(final_collections@),
                    wanted.skip(at as int),
                ),
            decreases lines.len() - at,
        {
            let ghost rest = wanted.skip(at as int);
            assert(rest[0] == lines@[at as int]@);
            assert(rest.skip(1) =~= wanted.skip(at + 1));
            if Collection::try_from_chars(&mut final_collections, &lines[at]).is_none() {
                return None;
            }
            at = at + 1;
        }
        Some(final_collections)
    }
}

/// Reads the collections out of the text of a collections file: one from
/// each line of three characters or more, in their order. A line whose
/// collection is refused leaves what its reading had made by then. There
/// is no result where a line cannot be read.
pub fn read_all_collections(all_collections_raw: &str) -> (result: Option<Vec<Collection>>)
    ensures
        match collections_read(Seq::empty(), record_lines(all_collections_raw@)) {
            Some(list) => result matches Some(all) && collection_views(all@) == list,
            None => result is None,
        },
{
    let lines = split_keeping(&chars_of(all_collections_raw), '\n', 3);
    Collection::from_lines(&lines)
}

/// Reads the collections out of the text of a collections file: one from
/// each line of three characters or more, in their order. A line whose
/// collection is refused leaves what its reading had made by then.
pub fn fetch_all_collections(all_collections_raw: &str) -> (all: Vec<Collection>)
    requires
        collections_read(Seq::empty(), record_lines(all_collections_raw@)) is Some,
    ensures
        Some(collection_views(all@)) == collections_read(
            Seq::empty(),
            record_lines(all_collections_raw@),
        ),
{
    match read_all_collections(all_collections_raw) {
        Some(all) => all,
        None => Vec::new(),
    }
}

/// Reads the collections out of a text that holds one in each of its
/// lines, in their order. There is no result where a line cannot be read.
pub fn read_collections_from_str(collections: &str) -> (result: Option<Vec<Collection>>)
    ensures
        match collections_read(Seq::empty(), split(collections@, '\n')) {
            Some(list) => result matches Some(all) && collection_views(all@) == list,
            None => result is None,
        },
{
    let lines = split_on(&chars_of(collections), '\n');
    Collection::from_lines(&lines)
}

/// Reads the collections out of a text that holds one in each of its
/// lines, in their order.
pub fn get_collections_from_str(collections: &str) -> (all: Vec<Collection>)
    requires
        collections_read(Seq::empty(), split(collections@, '\n')) is Some,
    ensures
        Some(collection_views(all@)) == collections_read(
            Seq::empty(),
            split(collections@, '\n'),
        ),
{
    match read_collections_from_str(collections) {
        Some(all) => all,
        None => Vec::new(),
    }
}

/// The text of a collections file: the lines of the collections, joined.
pub fn turn_collections_to_str(collections: Vec<Collection>) -> (text: String)
    ensures
        text@ == joined_lines(lines_of_collections(collection_views(collections@)), '\n'),
{
    let ghost lines = lines_of_collections(collection_views(collections@));
    let mut joined: Vec<char> = Vec::new();
    let mut at: usize = 0;
    assert(lines.take(0) =~= Seq::empty());
    while at < collections.len()
        invariant
            at <= collections.len(),
            lines == lines_of_collections(collection_views(collections@)),
            joined@ == joined_lines(lines.take(at as int), '\n'),
        decreases collections.len() - at,
    {
        let line = Collection::line(&collections[at]);
        assert(line@ == lines[at as int]);
        assert(lines.take(at + 1).drop_last() =~= lines.take(at as int));
        push_line(&mut joined, '\n', line.as_str());
        at = at + 1;
    }
    assert(lines.take(lines.len() as int) =~= lines);
    string_of(&joined)
}

/// A change of the first collection of an id that keeps the ids of the list
/// keeps every id findable.
pub proof fn lemma_change_keeps_ids(
    all: Seq<CollectionView>,
    id: Seq<char>,
    change: spec_fn(CollectionView) -> CollectionView,
    wanted: Seq<char>,
)
    requires
        forall|item: CollectionView| (#[trigger] change(item)).id == item.id,
        is_among(ids_of(all), wanted),
    ensures
        is_among(ids_of(changed_first(all, id, change).list), wanted),
{
    let after = changed_first(all, id, change).list;
    assert(ids_of(after) =~= ids_of(all)) by {
        lemma_first_index_is(ids_of(all), id);
    }
}

/// A collection that was created can be found by the id that it was
/// created under.
pub proof fn law_created_collection_exists(
    all: Seq<CollectionView>,
    id: Seq<char>,
    project_id: Seq<char>,
    name: Seq<char>,
    description: Seq<char>,
)
    requires
        created(all, id, project_id, name, description).error is None,
    ensures
        is_among(ids_of(created(all, id, project_id, name, description).list), id),
{
    let start = all.push(blank());
    let with_id = id_updated(start, placeholder_id(), id);
    lemma_trimmed_alnum(id, seq!['_', '-']);
    lemma_first_index_is(ids_of(start), placeholder_id());
    let at = first_index(ids_of(start), placeholder_id());
    assert(ids_of(with_id.list)[at] == id);
    lemma_first_index_is(ids_of(with_id.list), id);
    assert(is_among(ids_of(with_id.list), id));
    let with_project = project_id_updated(with_id.list, id, project_id);
    lemma_change_keeps_ids(
        with_id.list,
        id,
        |collection: CollectionView|
            CollectionView { project_id: trimmed(project_id), ..collection },
        id,
    );
    let with_name = name_updated(with_project.list, id, name);
    lemma_change_keeps_ids(
        with_project.list,
        id,
        |collection: CollectionView| CollectionView { name: trimmed(name), ..collection },
        id,
    );
    lemma_change_keeps_ids(
        with_name.list,
        id,
        |collection: CollectionView|
            CollectionView { description: trimmed(description), ..collection },
        id,
    );
}

/// No collection of the id is left in the list without them.
pub proof fn lemma_without_id(all: Seq<CollectionView>, id: Seq<char>)
    ensures
        !is_among(ids_of(without_id(all, id)), id),
    decreases all.len(),
{
    let left = without_id(all, id);
    if all.len() > 0 {
        lemma_without_id(all.skip(1), id);
        let rest = without_id(all.skip(1), id);
        lemma_first_index_is(ids_of(rest), id);
        lemma_first_index_is(ids_of(left), id);
        if all[0].id != id {
            assert(ids_of(left).skip(1) =~= ids_of(rest));
        }
    } else {
        assert(ids_of(left).len() == 0);
    }
}

/// After a deletion that succeeds, no collection has the id.
pub proof fn law_deleted_is_gone(all: Seq<CollectionView>, id: Seq<char>)
    requires
        deleted(all, id).error is None,
    ensures
        !is_among(ids_of(deleted(all, id).list), id),
{
    lemma_without_id(all, id);
}

} // verus!
