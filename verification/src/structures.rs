//! Structures: the fields that the records of a collection have.

use crate::text::{
    all_alnum_or, chars_of, check_length, decimal, ends, failed, fine, first_index, has_none_of,
    is_alnum_or, is_among, joined_lines, lemma_first_index, lemma_first_index_is,
    lemma_trimmed_alnum, length_error, none_of,
    parse_unsigned, parsed_unsigned, push_decimal, push_line, same_text, split, split_on,
    string_of, trim, trimmed, views, Outcome,
};
use vstd::prelude::*;

verus! {

/// The kind of value that a structure holds.
#[derive(Debug, Clone)]
pub enum Type {
    TEXT,
    EMAIL,
    PASSWORD,
    RICHTEXT,
    NUMBER,
    ENUM,
    DATE,
    MEDIA,
    BOOLEAN,
    UID,
    JSON,
    CUSTOM(String),
}

/// A `Type` with the name of a custom kind as a sequence.
pub enum TypeView {
    TEXT,
    EMAIL,
    PASSWORD,
    RICHTEXT,
    NUMBER,
    ENUM,
    DATE,
    MEDIA,
    BOOLEAN,
    UID,
    JSON,
    CUSTOM(Seq<char>),
}

impl View for Type {
    type V = TypeView;

    open spec fn view(&self) -> TypeView {
        match self {
            Type::TEXT => TypeView::TEXT,
            Type::EMAIL => TypeView::EMAIL,
            Type::PASSWORD => TypeView::PASSWORD,
            Type::RICHTEXT => TypeView::RICHTEXT,
            Type::NUMBER => TypeView::NUMBER,
            Type::ENUM => TypeView::ENUM,
            Type::DATE => TypeView::DATE,
            Type::MEDIA => TypeView::MEDIA,
            Type::BOOLEAN => TypeView::BOOLEAN,
            Type::UID => TypeView::UID,
            Type::JSON => TypeView::JSON,
            Type::CUSTOM(name) => TypeView::CUSTOM(name@),
        }
    }
}

impl Default for Type {
    fn default() -> (kind: Type)
        ensures
            kind@ == TypeView::TEXT,
    {
        Type::TEXT
    }
}

/// One structure.
#[derive(Default, Debug, Clone)]
pub struct Structure {
    pub id: String,
    name: String,
    stype: Type,
    default_val: String,
    min: usize,
    max: usize,
    encrypted: bool,
    unique: bool,
    regex_pattern: String,
    array: bool,
}

/// What a `Structure` holds.
pub struct StructureView {
    pub id: Seq<char>,
    pub name: Seq<char>,
    pub stype: TypeView,
    pub default_val: Seq<char>,
    pub min: usize,
    pub max: usize,
    pub encrypted: bool,
    pub unique: bool,
    pub regex_pattern: Seq<char>,
    pub array: bool,
}

impl View for Structure {
    type V = StructureView;

    closed spec fn view(&self) -> StructureView {
        StructureView {
            id: self.id@,
            name: self.name@,
            stype: self.stype@,
            default_val: self.default_val@,
            min: self.min,
            max: self.max,
            encrypted: self.encrypted,
            unique: self.unique,
            regex_pattern: self.regex_pattern@,
            array: self.array,
        }
    }
}

/// The views of a list of structures.
pub open spec fn structure_views(all: Seq<Structure>) -> Seq<StructureView> {
    Seq::new(all.len(), |index: int| all[index]@)
}

/// The ids of the structures, in order.
pub open spec fn ids_of(all: Seq<StructureView>) -> Seq<Seq<char>> {
    Seq::new(all.len(), |index: int| all[index].id)
}

/// The list without the structures of the given id.
pub open spec fn without_id(all: Seq<StructureView>, id: Seq<char>) -> Seq<StructureView>
    decreases all.len(),
{
    if all.len() == 0 {
        all
    } else if all[0].id == id {
        without_id(all.skip(1), id)
    } else {
        seq![all[0]] + without_id(all.skip(1), id)
    }
}

/// The id that a structure has while it is being created.
pub open spec fn placeholder_id() -> Seq<char> {
    "test;"@
}

/// A structure with the placeholder id and nothing else.
pub open spec fn blank() -> StructureView {
    StructureView {
        id: placeholder_id(),
        name: Seq::empty(),
        stype: TypeView::TEXT,
        default_val: Seq::empty(),
        min: 0,
        max: 0,
        encrypted: false,
        unique: false,
        regex_pattern: Seq::empty(),
        array: false,
    }
}

/// The characters that the free texts of a structure may not hold: they
/// set the parts of a collection's line apart.
pub open spec fn reserved() -> Seq<char> {
    seq![';', '@', '>', '#']
}

/// The kind that a text names: one of the eleven known names, or a custom
/// kind of that name.
pub open spec fn type_of_text(text: Seq<char>) -> TypeView {
    if text == "text"@ {
        TypeView::TEXT
    } else if text == "email"@ {
        TypeView::EMAIL
    } else if text == "password"@ {
        TypeView::PASSWORD
    } else if text == "richtext"@ {
        TypeView::RICHTEXT
    } else if text == "number"@ {
        TypeView::NUMBER
    } else if text == "enum"@ {
        TypeView::ENUM
    } else if text == "date"@ {
        TypeView::DATE
    } else if text == "media"@ {
        TypeView::MEDIA
    } else if text == "bool"@ {
        TypeView::BOOLEAN
    } else if text == "uid"@ {
        TypeView::UID
    } else if text == "json"@ {
        TypeView::JSON
    } else {
        TypeView::CUSTOM(text)
    }
}

/// The text that names a kind.
pub open spec fn text_of_type(kind: TypeView) -> Seq<char> {
    match kind {
        TypeView::TEXT => "text"@,
        TypeView::EMAIL => "email"@,
        TypeView::PASSWORD => "password"@,
        TypeView::RICHTEXT => "richtext"@,
        TypeView::NUMBER => "number"@,
        TypeView::ENUM => "enum"@,
        TypeView::DATE => "date"@,
        TypeView::MEDIA => "media"@,
        TypeView::BOOLEAN => "bool"@,
        TypeView::UID => "uid"@,
        TypeView::JSON => "json"@,
        TypeView::CUSTOM(name) => name,
    }
}

/// The list with `change` put on the first structure of the id; without
/// such a structure the operation fails.
pub open spec fn changed_first(
    all: Seq<StructureView>,
    id: Seq<char>,
    change: spec_fn(StructureView) -> StructureView,
) -> Outcome<StructureView> {
    let at = first_index(ids_of(all), id);
    if at == all.len() {
        failed(all, "Error: Structure not found"@)
    } else {
        fine(all.update(at, change(all[at])))
    }
}

/// What `Structure::update_id` does: the first structure of the id gets
/// the trimmed new id. The new id must not be the id of a structure of the
/// list, may hold ASCII letters and digits, `_` and `-`, and has, trimmed,
/// between 1 and 100 bytes.
pub open spec fn id_updated(all: Seq<StructureView>, id: Seq<char>, new_id: Seq<char>) -> Outcome<
    StructureView,
> {
    if is_among(ids_of(all), new_id) {
        failed(all, "Error: id is already in use"@)
    } else if !all_alnum_or(new_id, seq!['_', '-']) {
        failed(all, "Error: new_id contains an invalid character"@)
    } else {
        match length_error(
            new_id,
            1,
            100,
            "Error: new_id does not contain enough characters"@,
            "Error: new_id contains too many characters"@,
        ) {
            Some(message) => failed(all, message),
            None => changed_first(
                all,
                id,
                |structure: StructureView| StructureView { id: trimmed(new_id), ..structure },
            ),
        }
    }
}

/// What `Structure::update_name` does: the first structure of the id gets
/// the trimmed name, which may hold ASCII letters and digits, `_` and
/// spaces, and has, trimmed, between 1 and 100 bytes.
pub open spec fn name_updated(all: Seq<StructureView>, id: Seq<char>, name: Seq<char>) -> Outcome<
    StructureView,
> {
    if !all_alnum_or(name, seq!['_', ' ']) {
        failed(all, "Error: name contains an invalid character"@)
    } else {
        match length_error(
            name,
            1,
            100,
            "Error: name does not contain enough characters"@,
            "Error: name contains too many characters"@,
        ) {
            Some(message) => failed(all, message),
            None => changed_first(
                all,
                id,
                |structure: StructureView| StructureView { name: trimmed(name), ..structure },
            ),
        }
    }
}

/// What `Structure::update_type` does: the first structure of the id gets
/// the kind that the text names; the text holds no reserved character.
pub open spec fn type_updated(
    all: Seq<StructureView>,
    id: Seq<char>,
    stype_txt: Seq<char>,
) -> Outcome<StructureView> {
    if !none_of(stype_txt, reserved()) {
        failed(all, "Error: stype_txt contains an invalid character"@)
    } else {
        changed_first(
            all,
            id,
            |structure: StructureView|
                StructureView { stype: type_of_text(stype_txt), ..structure },
        )
    }
}

/// What `Structure::update_default` does: the first structure of the id
/// gets the trimmed default value, which holds no reserved character.
pub open spec fn default_updated(
    all: Seq<StructureView>,
    id: Seq<char>,
    default_val: Seq<char>,
) -> Outcome<StructureView> {
    if !none_of(default_val, reserved()) {
        failed(all, "Error: default_val contains an invalid character"@)
    } else {
        changed_first(
            all,
            id,
            |structure: StructureView|
                StructureView { default_val: trimmed(default_val), ..structure },
        )
    }
}

/// What `Structure::update_regex` does: the first structure of the id gets
/// the trimmed pattern, which holds no reserved character.
pub open spec fn regex_updated(
    all: Seq<StructureView>,
    id: Seq<char>,
    regex_pattern: Seq<char>,
) -> Outcome<StructureView> {
    if !none_of(regex_pattern, reserved()) {
        failed(all, "Error: regex_pattern contains an invalid character"@)
    } else {
        changed_first(
            all,
            id,
            |structure: StructureView|
                StructureView { regex_pattern: trimmed(regex_pattern), ..structure },
        )
    }
}

/// What `Structure::update_min` does: the first structure of the id gets the
/// lower bound.
pub open spec fn min_updated(all: Seq<StructureView>, id: Seq<char>, min: usize) -> Outcome<
    StructureView,
> {
    changed_first(all, id, |structure: StructureView| StructureView { min, ..structure })
}

/// What `Structure::update_max` does: the first structure of the id gets the
/// upper bound.
pub open spec fn max_updated(all: Seq<StructureView>, id: Seq<char>, max: usize) -> Outcome<
    StructureView,
> {
    changed_first(all, id, |structure: StructureView| StructureView { max, ..structure })
}

/// What `Structure::update_encrypted` does: the first structure of the id gets the
/// mark for encryption.
pub open spec fn encrypted_updated(all: Seq<StructureView>, id: Seq<char>, encrypted: bool) -> Outcome<
    StructureView,
> {
    changed_first(all, id, |structure: StructureView| StructureView { encrypted, ..structure })
}

/// What `Structure::update_unique` does: the first structure of the id gets the
/// mark for uniqueness.
pub open spec fn unique_updated(all: Seq<StructureView>, id: Seq<char>, unique: bool) -> Outcome<
    StructureView,
> {
    changed_first(all, id, |structure: StructureView| StructureView { unique, ..structure })
}

/// What `Structure::update_array` does: the first structure of the id gets the
/// mark for holding a list.
pub open spec fn array_updated(all: Seq<StructureView>, id: Seq<char>, array: bool) -> Outcome<
    StructureView,
> {
    changed_first(all, id, |structure: StructureView| StructureView { array, ..structure })
}

/// What `Structure::delete` does: every structure of the id leaves the
/// list, unless there is none.
pub open spec fn deleted(all: Seq<StructureView>, id: Seq<char>) -> Outcome<StructureView> {
    if !is_among(ids_of(all), id) {
        failed(all, "Error: Structure not found"@)
    } else {
        fine(without_id(all, id))
    }
}

/// A failed step of a creation undone: the structures of the id are
/// deleted and the step's error stays.
pub open spec fn undone(step: Outcome<StructureView>, id: Seq<char>) -> Outcome<StructureView> {
    failed(deleted(step.list, id).list, step.error->Some_0)
}

/// One more step behind those done so far, unless one of them has failed.
pub open spec fn and_then(
    step: Outcome<StructureView>,
    next: spec_fn(Seq<StructureView>) -> Outcome<StructureView>,
) -> Outcome<StructureView> {
    if step.error is Some {
        step
    } else {
        next(step.list)
    }
}

/// The fields of a structure apart from its id.
pub struct Fields {
    pub name: Seq<char>,
    pub stype_txt: Seq<char>,
    pub default_val: Seq<char>,
    pub min: usize,
    pub max: usize,
    pub encrypted: bool,
    pub unique: bool,
    pub regex_pattern: Seq<char>,
    pub array: bool,
}

/// The updates that fill a new structure, in their order, up to the first
/// that fails.
pub open spec fn filled(all: Seq<StructureView>, id: Seq<char>, fields: Fields) -> Outcome<
    StructureView,
> {
    let s1 = name_updated(all, id, fields.name);
    let s2 = and_then(s1, |list: Seq<StructureView>| type_updated(list, id, fields.stype_txt));
    let s3 = and_then(
        s2,
        |list: Seq<StructureView>| default_updated(list, id, fields.default_val),
    );
    let s4 = and_then(s3, |list: Seq<StructureView>| min_updated(list, id, fields.min));
    let s5 = and_then(s4, |list: Seq<StructureView>| max_updated(list, id, fields.max));
    let s6 = and_then(
        s5,
        |list: Seq<StructureView>| encrypted_updated(list, id, fields.encrypted),
    );
    let s7 = and_then(s6, |list: Seq<StructureView>| unique_updated(list, id, fields.unique));
    let s8 = and_then(
        s7,
        |list: Seq<StructureView>| regex_updated(list, id, fields.regex_pattern),
    );
    and_then(s8, |list: Seq<StructureView>| array_updated(list, id, fields.array))
}

/// What `Structure::create` does.
///
/// A blank structure joins the list under the placeholder id and is then
/// given the id and, one after the other, its other fields, each as its
/// update does it and each found by the id as it was passed in. The first
/// update that fails ends the creation: the structures of the id that the
/// search went by are deleted, and the update's error is the result.
pub open spec fn created(all: Seq<StructureView>, id: Seq<char>, fields: Fields) -> Outcome<
    StructureView,
> {
    let with_id = id_updated(all.push(blank()), placeholder_id(), id);
    if with_id.error is Some {
        undone(with_id, placeholder_id())
    } else {
        let done = filled(with_id.list, id, fields);
        if done.error is Some {
            undone(done, id)
        } else {
            done
        }
    }
}

/// The text of a mark: `true` or `false`.
pub open spec fn text_of_mark(mark: bool) -> Seq<char> {
    if mark {
        "true"@
    } else {
        "false"@
    }
}

/// The line that writes a structure: its ten fields with `|` between them.
pub open spec fn line_of_structure(structure: StructureView) -> Seq<char> {
    structure.id + seq!['|'] + structure.name + seq!['|'] + text_of_type(structure.stype) + seq![
        '|',
    ] + structure.default_val + seq!['|'] + decimal(structure.min as nat) + seq!['|'] + decimal(
        structure.max as nat,
    ) + seq!['|'] + text_of_mark(structure.encrypted) + seq!['|'] + text_of_mark(
        structure.unique,
    ) + seq!['|'] + structure.regex_pattern + seq!['|'] + text_of_mark(structure.array)
}

/// The lines that write the structures.
pub open spec fn lines_of_structures(all: Seq<StructureView>) -> Seq<Seq<char>> {
    Seq::new(all.len(), |index: int| line_of_structure(all[index]))
}

/// Whether the pieces of a line can be read as a structure at all: a line
/// of one piece is passed over, and so is one whose bounds are no numbers,
/// but a line that ends before its tenth piece cannot be read.
pub open spec fn can_read(pieces: Seq<Seq<char>>) -> bool {
    ||| pieces.len() <= 1
    ||| pieces.len() >= 5 && parsed_unsigned(pieces[4], usize::MAX as int) is None
    ||| pieces.len() >= 6 && parsed_unsigned(pieces[5], usize::MAX as int) is None
    ||| pieces.len() >= 10
}

/// Whether the pieces of a line hold a structure: more than one piece, and
/// numbers for the two bounds.
pub open spec fn holds_structure(pieces: Seq<Seq<char>>) -> bool {
    &&& pieces.len() >= 10
    &&& parsed_unsigned(pieces[4], usize::MAX as int) is Some
    &&& parsed_unsigned(pieces[5], usize::MAX as int) is Some
}

/// The fields that the pieces of a line write, apart from the id.
pub open spec fn fields_of(pieces: Seq<Seq<char>>) -> Fields {
    Fields {
        name: pieces[1],
        stype_txt: pieces[2],
        default_val: pieces[3],
        min: parsed_unsigned(pieces[4], usize::MAX as int)->Some_0 as usize,
        max: parsed_unsigned(pieces[5], usize::MAX as int)->Some_0 as usize,
        encrypted: pieces[6] == "true"@,
        unique: pieces[7] == "true"@,
        regex_pattern: pieces[8],
        array: pieces[9] == "true"@,
    }
}

/// The list with `structure` in the place of every structure of its id,
/// or at the end where none has its id.
pub open spec fn with_structure(all: Seq<StructureView>, structure: StructureView) -> Seq<
    StructureView,
> {
    if is_among(ids_of(all), structure.id) {
        Seq::new(
            all.len(),
            |index: int|
                if all[index].id == structure.id {
                    structure
                } else {
                    all[index]
                },
        )
    } else {
        all.push(structure)
    }
}

/// Whether every piece of a text, cut at `%`, can be read as a structure.
pub open spec fn can_read_all(text: Seq<char>) -> bool {
    forall|index: int|
        0 <= index < split(text, '%').len() ==> can_read(
            split(#[trigger] split(text, '%')[index], '|'),
        )
}

/// The list after every structure of the pieces has been added to it.
pub open spec fn added_all(all: Seq<StructureView>, pieces: Seq<Seq<char>>) -> Seq<StructureView>
    decreases pieces.len(),
{
    if pieces.len() == 0 {
        all
    } else {
        added(added_all(all, pieces.drop_last()), split(pieces.last(), '|'))
    }
}

/// The structures that a text writes, one in each of its pieces between
/// `%`.
pub open spec fn structures_of_text(text: Seq<char>) -> Seq<StructureView> {
    added_all(Seq::empty(), split(text, '%'))
}

/// What `try_add_structure` leaves of a list: the list with the structure
/// of the pieces created in it, where the pieces hold one and its creation
/// succeeds; the list that the failed creation leaves, where it fails; the
/// list as it was, where the pieces hold none.
pub open spec fn added(all: Seq<StructureView>, pieces: Seq<Seq<char>>) -> Seq<StructureView> {
    if holds_structure(pieces) {
        created(all, pieces[0], fields_of(pieces)).list
    } else {
        all
    }
}

/// What `Structure::from_string` gives for a line, where it gives
/// anything: the structure that the line writes, or an error where the
/// line holds none. There is no result where the line cannot be read, or
/// holds a structure that cannot be created.
pub open spec fn structure_of_line(line: Seq<char>) -> Option<Result<StructureView, Seq<char>>> {
    let pieces = split(line, '|');
    if !can_read(pieces) {
        None
    } else if !holds_structure(pieces) {
        Some(Err("Error: Wrong format for Structure data"@))
    } else {
        let list = added(Seq::empty(), pieces);
        if list.len() == 0 {
            None
        } else {
            Some(Ok(list[0]))
        }
    }
}

impl Type {
    /// A copy of the kind.
    pub fn copy(&self) -> (kind: Type)
        ensures
            kind@ == self@,
    {
        match self {
            Type::TEXT => Type::TEXT,
            Type::EMAIL => Type::EMAIL,
            Type::PASSWORD => Type::PASSWORD,
            Type::RICHTEXT => Type::RICHTEXT,
            Type::NUMBER => Type::NUMBER,
            Type::ENUM => Type::ENUM,
            Type::DATE => Type::DATE,
            Type::MEDIA => Type::MEDIA,
            Type::BOOLEAN => Type::BOOLEAN,
            Type::UID => Type::UID,
            Type::JSON => Type::JSON,
            Type::CUSTOM(name) => Type::CUSTOM(name.clone()),
        }
    }

    /// The kind that a text names.
    pub fn from_text(stype_txt: &str) -> (kind: Type)
        ensures
            kind@ == type_of_text(stype_txt@),
    {
        if same_text(stype_txt, "text") {
            Type::TEXT
        } else if same_text(stype_txt, "email") {
            Type::EMAIL
        } else if same_text(stype_txt, "password") {
            Type::PASSWORD
        } else if same_text(stype_txt, "richtext") {
            Type::RICHTEXT
        } else if same_text(stype_txt, "number") {
            Type::NUMBER
        } else if same_text(stype_txt, "enum") {
            Type::ENUM
        } else if same_text(stype_txt, "date") {
            Type::DATE
        } else if same_text(stype_txt, "media") {
            Type::MEDIA
        } else if same_text(stype_txt, "bool") {
            Type::BOOLEAN
        } else if same_text(stype_txt, "uid") {
            Type::UID
        } else if same_text(stype_txt, "json") {
            Type::JSON
        } else {
            Type::CUSTOM(String::from_str(stype_txt))
        }
    }

    /// The text that names the kind.
    pub fn text(&self) -> (text: String)
        ensures
            text@ == text_of_type(self@),
    {
        match self {
            Type::TEXT => String::from_str("text"),
            Type::EMAIL => String::from_str("email"),
            Type::PASSWORD => String::from_str("password"),
            Type::RICHTEXT => String::from_str("richtext"),
            Type::NUMBER => String::from_str("number"),
            Type::ENUM => String::from_str("enum"),
            Type::DATE => String::from_str("date"),
            Type::MEDIA => String::from_str("media"),
            Type::BOOLEAN => String::from_str("bool"),
            Type::UID => String::from_str("uid"),
            Type::JSON => String::from_str("json"),
            Type::CUSTOM(name) => name.clone(),
        }
    }
}

/// The text of a mark.
fn mark_text(mark: bool) -> (text: &'static str)
    ensures
        text@ == text_of_mark(mark),
{
    if mark {
        "true"
    } else {
        "false"
    }
}

impl Structure {
    /// Position of the first structure with the id, or the length of the
    /// list.
    fn position(all_structures: &Vec<Structure>, id: &str) -> (at: usize)
        ensures
            at == first_index(ids_of(structure_views(all_structures@)), id@),
            at <= all_structures.len(),
    {
        let ghost ids = ids_of(structure_views(all_structures@));
        let mut at: usize = 0;
        while at < all_structures.len()
            invariant
                at <= all_structures.len(),
                ids == ids_of(structure_views(all_structures@)),
                forall|index: int| 0 <= index < at ==> #[trigger] ids[index] != id@,
            decreases all_structures.len() - at,
        {
            if same_text(all_structures[at].id.as_str(), id) {
                proof {
                    assert(ids[at as int] == id@);
                    lemma_first_index(ids, id@, at as int);
                }
                return at;
            }
            assert(ids[at as int] != id@);
            at = at + 1;
        }
        proof {
            lemma_first_index(ids, id@, at as int);
        }
        at
    }

    /// The id.
    pub fn id_text(&self) -> (id: &str)
        ensures
            id@ == self@.id,
    {
        self.id.as_str()
    }

    /// Copies of the structures, in order.
    pub fn copy_all(all_structures: &Vec<Structure>) -> (copies: Vec<Structure>)
        ensures
            structure_views(copies@) == structure_views(all_structures@),
    {
        let mut copies: Vec<Structure> = Vec::new();
        let mut at: usize = 0;
        while at < all_structures.len()
            invariant
                at <= all_structures.len(),
                structure_views(copies@) == structure_views(all_structures@).take(at as int),
            decreases all_structures.len() - at,
        {
            let ghost before = structure_views(copies@);
            let copy = all_structures[at].copy();
            copies.push(copy);
            assert(structure_views(copies@) =~= before.push(copy@));
            assert(structure_views(copies@) =~= structure_views(all_structures@).take(at + 1));
            at = at + 1;
        }
        assert(structure_views(all_structures@).take(all_structures@.len() as int)
            =~= structure_views(all_structures@));
        copies
    }

    /// A copy of the structure.
    pub fn copy(&self) -> (structure: Structure)
        ensures
            structure@ == self@,
    {
        Structure {
            id: self.id.clone(),
            name: self.name.clone(),
            stype: self.stype.copy(),
            default_val: self.default_val.clone(),
            min: self.min,
            max: self.max,
            encrypted: self.encrypted,
            unique: self.unique,
            regex_pattern: self.regex_pattern.clone(),
            array: self.array,
        }
    }

    /// Puts `structure` in the place `at` of the list.
    fn put(all_structures: &mut Vec<Structure>, at: usize, structure: Structure)
        requires
            at < old(all_structures).len(),
        ensures
            final(all_structures)@.len() == old(all_structures)@.len(),
            structure_views(final(all_structures)@) == structure_views(
                old(all_structures)@,
            ).update(at as int, structure@),
    {
        all_structures[at] = structure;
        assert(structure_views(all_structures@) =~= structure_views(old(all_structures)@).update(
            at as int,
            structure@,
        ));
    }

    /// Adds a structure; see `created`.
    pub fn create(
        all_structures: &mut Vec<Structure>,
        id: &str,
        name: &str,
        stype_txt: &str,
        default_val: &str,
        min: usize,
        max: usize,
        encrypted: bool,
        unique: bool,
        regex_pattern: &str,
        array: bool,
    ) -> (result: Result<(), String>)
        ensures
            ends(
                result,
                structure_views(final(all_structures)@),
                created(
                    structure_views(old(all_structures)@),
                    id@,
                    Fields {
                        name: name@,
                        stype_txt: stype_txt@,
                        default_val: default_val@,
                        min,
                        max,
                        encrypted,
                        unique,
                        regex_pattern: regex_pattern@,
                        array,
                    },
                ),
            ),
    {
        let tmp_id = String::from_str("test;");
        let new_id = String::from_str(id);
        let ghost before = structure_views(all_structures@);
        let new_structure = Structure {
            id: tmp_id.clone(),
            name: String::new(),
            stype: Type::default(),
            default_val: String::new(),
            min: 0,
            max: 0,
            encrypted: false,
            unique: false,
            regex_pattern: String::new(),
            array: false,
        };
        all_structures.push(new_structure);
        assert(structure_views(all_structures@) =~= before.push(blank()));
        if let Err(error) = Self::update_id(all_structures, &tmp_id, id) {
            let _ = Self::delete(all_structures, &tmp_id);
            return Err(error);
        }
        if let Err(error) = Self::update_name(all_structures, &new_id, name) {
            let _ = Self::delete(all_structures, &new_id);
            return Err(error);
        }
        if let Err(error) = Self::update_type(all_structures, &new_id, stype_txt) {
            let _ = Self::delete(all_structures, &new_id);
            return Err(error);
        }
        if let Err(error) = Self::update_default(all_structures, &new_id, default_val) {
            let _ = Self::delete(all_structures, &new_id);
            return Err(error);
        }
        if let Err(error) = Self::update_min(all_structures, &new_id, min) {
            let _ = Self::delete(all_structures, &new_id);
            return Err(error);
        }
        if let Err(error) = Self::update_max(all_structures, &new_id, max) {
            let _ = Self::delete(all_structures, &new_id);
            return Err(error);
        }
        if let Err(error) = Self::update_encrypted(all_structures, &new_id, encrypted) {
            let _ = Self::delete(all_structures, &new_id);
            return Err(error);
        }
        if let Err(error) = Self::update_unique(all_structures, &new_id, unique) {
            let _ = Self::delete(all_structures, &new_id);
            return Err(error);
        }
        if let Err(error) = Self::update_regex(all_structures, &new_id, regex_pattern) {
            let _ = Self::delete(all_structures, &new_id);
            return Err(error);
        }
        if let Err(error) = Self::update_array(all_structures, &new_id, array) {
            let _ = Self::delete(all_structures, &new_id);
            return Err(error);
        }
        Ok(())
    }

    /// Whether a structure of the list has the id.
    pub fn exist(all_structures: &Vec<Structure>, id: &str) -> (found: bool)
        ensures
            found == is_among(ids_of(structure_views(all_structures@)), id@),
    {
        Self::position(all_structures, id) < all_structures.len()
    }

    /// Changes the id of a structure; see `id_updated`.
    pub fn update_id(
        all_structures: &mut Vec<Structure>,
        id: &String,
        new_id: &str,
    ) -> (result: Result<(), String>)
        ensures
            ends(
                result,
                structure_views(final(all_structures)@),
                id_updated(structure_views(old(all_structures)@), id@, new_id@),
            ),
    {
        if Self::position(all_structures, new_id) < all_structures.len() {
            return Err(String::from_str("Error: id is already in use"));
        }
        let chars = chars_of(new_id);
        let extra: Vec<char> = vec!['_', '-'];
        assert(extra@ =~= seq!['_', '-']);
        if !is_alnum_or(&chars, &extra) {
            return Err(String::from_str("Error: new_id contains an invalid character"));
        }
        let short = trim(&chars);
        if let Some(message) = check_length(
            &short,
            1,
            100,
            "Error: new_id does not contain enough characters",
            "Error: new_id contains too many characters",
        ) {
            return Err(message);
        }
        let at = Self::position(all_structures, id.as_str());
        if at == all_structures.len() {
            return Err(String::from_str("Error: Structure not found"));
        }
        let mut structure = all_structures[at].copy();
        structure.id = short;
        Self::put(all_structures, at, structure);
        Ok(())
    }

    /// Changes the name of a structure; see `name_updated`.
    pub fn update_name(
        all_structures: &mut Vec<Structure>,
        id: &String,
        name: &str,
    ) -> (result: Result<(), String>)
        ensures
            ends(
                result,
                structure_views(final(all_structures)@),
                name_updated(structure_views(old(all_structures)@), id@, name@),
            ),
    {
        let chars = chars_of(name);
        let extra: Vec<char> = vec!['_', ' '];
        assert(extra@ =~= seq!['_', ' ']);
        if !is_alnum_or(&chars, &extra) {
            return Err(String::from_str("Error: name contains an invalid character"));
        }
        let short = trim(&chars);
        if let Some(message) = check_length(
            &short,
            1,
            100,
            "Error: name does not contain enough characters",
            "Error: name contains too many characters",
        ) {
            return Err(message);
        }
        let at = Self::position(all_structures, id.as_str());
        if at == all_structures.len() {
            return Err(String::from_str("Error: Structure not found"));
        }
        let mut structure = all_structures[at].copy();
        structure.name = short;
        Self::put(all_structures, at, structure);
        Ok(())
    }

    /// Changes the kind of a structure; see `type_updated`.
    pub fn update_type(
        all_structures: &mut Vec<Structure>,
        id: &String,
        stype_txt: &str,
    ) -> (result: Result<(), String>)
        ensures
            ends(
                result,
                structure_views(final(all_structures)@),
                type_updated(structure_views(old(all_structures)@), id@, stype_txt@),
            ),
    {
        let chars = chars_of(stype_txt);
        let banned: Vec<char> = vec![';', '@', '>', '#'];
        assert(banned@ =~= reserved());
        if !has_none_of(&chars, &banned) {
            return Err(String::from_str("Error: stype_txt contains an invalid character"));
        }
        let stype = Type::from_text(stype_txt);
        let at = Self::position(all_structures, id.as_str());
        if at == all_structures.len() {
            return Err(String::from_str("Error: Structure not found"));
        }
        let mut structure = all_structures[at].copy();
        structure.stype = stype;
        Self::put(all_structures, at, structure);
        Ok(())
    }

    /// Changes the default value of a structure; see `default_updated`.
    pub fn update_default(
        all_structures: &mut Vec<Structure>,
        id: &String,
        default_val: &str,
    ) -> (result: Result<(), String>)
        ensures
            ends(
                result,
                structure_views(final(all_structures)@),
                default_updated(structure_views(old(all_structures)@), id@, default_val@),
            ),
    {
        let chars = chars_of(default_val);
        let banned: Vec<char> = vec![';', '@', '>', '#'];
        assert(banned@ =~= reserved());
        if !has_none_of(&chars, &banned) {
            return Err(String::from_str("Error: default_val contains an invalid character"));
        }
        let at = Self::position(all_structures, id.as_str());
        if at == all_structures.len() {
            return Err(String::from_str("Error: Structure not found"));
        }
        let mut structure = all_structures[at].copy();
        structure.default_val = trim(&chars);
        Self::put(all_structures, at, structure);
        Ok(())
    }

    /// Changes the lower bound of a structure; see `min_updated`.
    pub fn update_min(
        all_structures: &mut Vec<Structure>,
        id: &String,
        min: usize,
    ) -> (result: Result<(), String>)
        ensures
            ends(
                result,
                structure_views(final(all_structures)@),
                min_updated(structure_views(old(all_structures)@), id@, min),
            ),
    {
        let at = Self::position(all_structures, id.as_str());
        if at == all_structures.len() {
            return Err(String::from_str("Error: Structure not found"));
        }
        let mut structure = all_structures[at].copy();
        structure.min = min;
        Self::put(all_structures, at, structure);
        Ok(())
    }

    /// Changes the upper bound of a structure; see `max_updated`.
    pub fn update_max(
        all_structures: &mut Vec<Structure>,
        id: &String,
        max: usize,
    ) -> (result: Result<(), String>)
        ensures
            ends(
                result,
                structure_views(final(all_structures)@),
                max_updated(structure_views(old(all_structures)@), id@, max),
            ),
    {
        let at = Self::position(all_structures, id.as_str());
        if at == all_structures.len() {
            return Err(String::from_str("Error: Structure not found"));
        }
        let mut structure = all_structures[at].copy();
        structure.max = max;
        Self::put(all_structures, at, structure);
        Ok(())
    }

    /// Changes the mark for encryption of a structure; see `encrypted_updated`.
    pub fn update_encrypted(
        all_structures: &mut Vec<Structure>,
        id: &String,
        encrypted: bool,
    ) -> (result: Result<(), String>)
        ensures
            ends(
                result,
                structure_views(final(all_structures)@),
                encrypted_updated(structure_views(old(all_structures)@), id@, encrypted),
            ),
    {
        let at = Self::position(all_structures, id.as_str());
        if at == all_structures.len() {
            return Err(String::from_str("Error: Structure not found"));
        }
        let mut structure = all_structures[at].copy();
        structure.encrypted = encrypted;
        Self::put(all_structures, at, structure);
        Ok(())
    }

    /// Changes the mark for uniqueness of a structure; see `unique_updated`.
    pub fn update_unique(
        all_structures: &mut Vec<Structure>,
        id: &String,
        unique: bool,
    ) -> (result: Result<(), String>)
        ensures
            ends(
                result,
                structure_views(final(all_structures)@),
                unique_updated(structure_views(old(all_structures)@), id@, unique),
            ),
    {
        let at = Self::position(all_structures, id.as_str());
        if at == all_structures.len() {
            return Err(String::from_str("Error: Structure not found"));
        }
        let mut structure = all_structures[at].copy();
        structure.unique = unique;
        Self::put(all_structures, at, structure);
        Ok(())
    }

    /// Changes the mark for holding a list of a structure; see `array_updated`.
    pub fn update_array(
        all_structures: &mut Vec<Structure>,
        id: &String,
        array: bool,
    ) -> (result: Result<(), String>)
        ensures
            ends(
                result,
                structure_views(final(all_structures)@),
                array_updated(structure_views(old(all_structures)@), id@, array),
            ),
    {
        let at = Self::position(all_structures, id.as_str());
        if at == all_structures.len() {
            return Err(String::from_str("Error: Structure not found"));
        }
        let mut structure = all_structures[at].copy();
        structure.array = array;
        Self::put(all_structures, at, structure);
        Ok(())
    }

    /// Changes the pattern of a structure; see `regex_updated`.
    pub fn update_regex(
        all_structures: &mut Vec<Structure>,
        id: &String,
        regex_pattern: &str,
    ) -> (result: Result<(), String>)
        ensures
            ends(
                result,
                structure_views(final(all_structures)@),
                regex_updated(structure_views(old(all_structures)@), id@, regex_pattern@),
            ),
    {
        let chars = chars_of(regex_pattern);
        let banned: Vec<char> = vec![';', '@', '>', '#'];
        assert(banned@ =~= reserved());
        if !has_none_of(&chars, &banned) {
            return Err(String::from_str("Error: regex_pattern contains an invalid character"));
        }
        let at = Self::position(all_structures, id.as_str());
        if at == all_structures.len() {
            return Err(String::from_str("Error: Structure not found"));
        }
        let mut structure = all_structures[at].copy();
        structure.regex_pattern = trim(&chars);
        Self::put(all_structures, at, structure);
        Ok(())
    }

    /// Deletes the structures of an id; see `deleted`.
    pub fn delete(all_structures: &mut Vec<Structure>, id: &String) -> (result: Result<(), String>)
        ensures
            ends(
                result,
                structure_views(final(all_structures)@),
                deleted(structure_views(old(all_structures)@), id@),
            ),
    {
        if Self::position(all_structures, id.as_str()) == all_structures.len() {
            return Err(String::from_str("Error: Structure not found"));
        }
        let ghost before = structure_views(all_structures@);
        let mut at: usize = all_structures.len();
        assert(before.skip(at as int) =~= Seq::empty());
        while at > 0
            invariant
                at <= all_structures.len(),
                at <= before.len(),
                structure_views(all_structures@).take(at as int) == before.take(at as int),
                structure_views(all_structures@).skip(at as int) == without_id(
                    before.skip(at as int),
                    id@,
                ),
            decreases at,
        {
            at = at - 1;
            let ghost current = structure_views(all_structures@);
            let ghost tail = before.skip(at as int);
            assert(tail.skip(1) =~= before.skip(at + 1));
            assert(tail[0] == before[at as int]);
            assert(current[at as int] == current.take(at + 1)[at as int]);
            assert(before[at as int] == before.take(at + 1)[at as int]);
            if same_text(all_structures[at].id.as_str(), id.as_str()) {
                all_structures.remove(at);
                assert(structure_views(all_structures@).skip(at as int) =~= current.skip(at + 1));
            } else {
                assert(current.skip(at as int) =~= seq![current[at as int]] + current.skip(
                    at + 1,
                ));
            }
            assert(structure_views(all_structures@).take(at as int) =~= current.take(at + 1).take(
                at as int,
            ));
            assert(before.take(at as int) =~= before.take(at + 1).take(at as int));
        }
        assert(structure_views(all_structures@).skip(0) =~= structure_views(all_structures@));
        assert(before.skip(0) =~= before);
        Ok(())
    }

    /// The lines of the structures, joined by `%`.
    pub fn stringify(all_structures: &Vec<Structure>) -> (text: String)
        ensures
            text@ == joined_lines(lines_of_structures(structure_views(all_structures@)), '%'),
    {
        let ghost lines = lines_of_structures(structure_views(all_structures@));
        let mut joined: Vec<char> = Vec::new();
        let mut at: usize = 0;
        assert(lines.take(0) =~= Seq::empty());
        while at < all_structures.len()
            invariant
                at <= all_structures.len(),
                lines == lines_of_structures(structure_views(all_structures@)),
                joined@ == joined_lines(lines.take(at as int), '%'),
            decreases all_structures.len() - at,
        {
            let line = Self::line(&all_structures[at]);
            assert(line@ == lines[at as int]);
            assert(lines.take(at + 1).drop_last() =~= lines.take(at as int));
            push_line(&mut joined, '%', line.as_str());
            at = at + 1;
        }
        assert(lines.take(lines.len() as int) =~= lines);
        string_of(&joined)
    }

    /// The structure that a line writes, where the line has one; see
    /// `structure_of_line`.
    pub fn try_from_string(structure_str: &str) -> (result: Option<Result<Structure, String>>)
        ensures
            match structure_of_line(structure_str@) {
                Some(Ok(structure)) => result matches Some(Ok(made)) && made@ == structure,
                Some(Err(message)) => result matches Some(Err(text)) && text@ == message,
                None => result is None,
            },
    {
        let current_structure = split_on(&chars_of(structure_str), '|');
        let mut tmp_structures: Vec<Structure> = Vec::new();
        assert(structure_views(tmp_structures@) =~= Seq::empty());
        match read_structure(&current_structure, &mut tmp_structures) {
            None => None,
            Some(false) => Some(Err(String::from_str("Error: Wrong format for Structure data"))),
            Some(true) => {
                if tmp_structures.len() == 0 {
                    return None;
                }
                assert(structure_views(tmp_structures@)[0] == tmp_structures@[0]@);
                Some(Ok(tmp_structures[0].copy()))
            },
        }
    }

    /// The structure that a line writes; see `structure_of_line`.
    pub fn from_string(structure_str: &str) -> (result: Result<Structure, String>)
        requires
            structure_of_line(structure_str@) is Some,
        ensures
            match structure_of_line(structure_str@)->Some_0 {
                Ok(structure) => result matches Ok(made) && made@ == structure,
                Err(message) => result matches Err(text) && text@ == message,
            },
    {
        match Self::try_from_string(structure_str) {
            Some(result) => result,
            None => Err(String::new()),
        }
    }

    /// The line that writes the structure.
    pub fn to_string(structure: Structure) -> (line: String)
        ensures
            line@ == line_of_structure(structure@),
    {
        Self::line(&structure)
    }

    /// The line that writes the structure.
    fn line(structure: &Structure) -> (line: String)
        ensures
            line@ == line_of_structure(structure@),
    {
        proof {
            reveal_strlit("|");
        }
        assert("|"@ =~= seq!['|']);
        let mut low: Vec<char> = Vec::new();
        push_decimal(&mut low, structure.min as u64);
        let mut high: Vec<char> = Vec::new();
        push_decimal(&mut high, structure.max as u64);
        assert(low@ =~= decimal(structure.min as nat));
        assert(high@ =~= decimal(structure.max as nat));
        let mut line = String::new();
        line.append(structure.id.as_str());
        line.append("|");
        line.append(structure.name.as_str());
        line.append("|");
        line.append(structure.stype.text().as_str());
        line.append("|");
        line.append(structure.default_val.as_str());
        line.append("|");
        line.append(string_of(&low).as_str());
        line.append("|");
        line.append(string_of(&high).as_str());
        line.append("|");
        line.append(mark_text(structure.encrypted));
        line.append("|");
        line.append(mark_text(structure.unique));
        line.append("|");
        line.append(structure.regex_pattern.as_str());
        line.append("|");
        line.append(mark_text(structure.array));
        assert(line@ =~= line_of_structure(structure@));
        line
    }
}

/// Puts a structure into a list: in the place of every structure of its
/// id, or at the end where none has its id.
pub fn put_structure(all_structures: &mut Vec<Structure>, structure: Structure)
    ensures
        structure_views(final(all_structures)@) == with_structure(
            structure_views(old(all_structures)@),
            structure@,
        ),
{
    let ghost before = structure_views(all_structures@);
    let ghost ids = ids_of(before);
    let mut found = false;
    let mut at: usize = 0;
    while at < all_structures.len()
        invariant
            at <= all_structures.len(),
            all_structures.len() == before.len(),
            ids == ids_of(before),
            found == exists|index: int| 0 <= index < at && #[trigger] ids[index] == structure@.id,
            forall|index: int|
                0 <= index < at ==> #[trigger] structure_views(all_structures@)[index] == (if before[
                    index
                ].id == structure@.id {
                    structure@
                } else {
                    before[index]
                }),
            forall|index: int|
                at <= index < before.len() ==> #[trigger] structure_views(all_structures@)[index]
                    == before[index],
        decreases all_structures.len() - at,
    {
        let ghost current = structure_views(all_structures@);
        assert(current[at as int] == before[at as int]);
        assert(ids[at as int] == before[at as int].id);
        if same_text(all_structures[at].id_text(), structure.id_text()) {
            let copy = structure.copy();
            Structure::put(all_structures, at, copy);
            found = true;
        }
        at = at + 1;
    }
    proof {
        crate::text::lemma_first_index_is(ids, structure@.id);
        if found {
            let index = choose|index: int|
                0 <= index < ids.len() && #[trigger] ids[index] == structure@.id;
            assert(is_among(ids, structure@.id));
            assert(structure_views(all_structures@) =~= with_structure(before, structure@));
        } else {
            assert(!is_among(ids, structure@.id));
            assert forall|index: int| 0 <= index < before.len() implies #[trigger] structure_views(
                all_structures@,
            )[index] == before[index] by {
                assert(ids[index] == before[index].id);
            }
            assert(structure_views(all_structures@) =~= before);
        }
    }
    if !found {
        all_structures.push(structure);
        assert(structure_views(all_structures@) =~= before.push(structure@));
    }
}

/// Adds to a list the structures that a text writes, one in each of its
/// pieces between `%`, and tells whether every piece could be read. It
/// stops at the first piece that cannot.
pub fn read_structures(text: &Vec<char>, final_structures: &mut Vec<Structure>) -> (read: bool)
    ensures
        read == can_read_all(text@),
        read ==> structure_views(final(final_structures)@) == added_all(
            structure_views(old(final_structures)@),
            split(text@, '%'),
        ),
{
    let individual = split_on(text, '%');
    let ghost pieces = split(text@, '%');
    let ghost before = structure_views(final_structures@);
    let mut at: usize = 0;
    assert(pieces.take(0) =~= Seq::empty());
    while at < individual.len()
        invariant
            at <= individual.len(),
            views(individual@) == pieces,
            pieces == split(text@, '%'),
            forall|index: int| 0 <= index < at ==> can_read(split(#[trigger] pieces[index], '|')),
            structure_views(final_structures@) == added_all(before, pieces.take(at as int)),
        decreases individual.len() - at,
    {
        assert(views(individual@)[at as int] == individual@[at as int]@);
        let current = split_on(&individual[at], '|');
        if read_structure(&current, final_structures).is_none() {
            assert(!can_read(split(pieces[at as int], '|')));
            return false;
        }
        assert(pieces.take(at + 1).drop_last() =~= pieces.take(at as int));
        at = at + 1;
    }
    assert(pieces.take(pieces.len() as int) =~= pieces);
    true
}

/// Adds to a list the structures that a text writes, one in each of its
/// pieces between `%`.
pub fn add_structures_of(text: &Vec<char>, final_structures: &mut Vec<Structure>)
    requires
        can_read_all(text@),
    ensures
        structure_views(final(final_structures)@) == added_all(
            structure_views(old(final_structures)@),
            split(text@, '%'),
        ),
{
    let _ = read_structures(text, final_structures);
}

/// The structures that the lines write: one for each line that holds one.
/// There is no result where `Structure::from_string` has none for a line.
pub open spec fn structures_of_lines(lines: Seq<Seq<char>>) -> Option<Seq<StructureView>>
    decreases lines.len(),
{
    if lines.len() == 0 {
        Some(Seq::empty())
    } else {
        match structures_of_lines(lines.drop_last()) {
            None => None,
            Some(before) => match structure_of_line(lines.last()) {
                None => None,
                Some(Ok(structure)) => Some(before.push(structure)),
                Some(Err(_)) => Some(before),
            },
        }
    }
}

/// Reads the structures out of a text that holds their lines with `%`
/// between them; lines that hold no structure are passed over. There is
/// no result where a line cannot be read.
pub fn read_structures_from_str(structures: &str) -> (result: Option<Vec<Structure>>)
    ensures
        match structures_of_lines(split(structures@, '%')) {
            Some(list) => result matches Some(all) && structure_views(all@) == list,
            None => result is None,
        },
{
    let lines = split_on(&chars_of(structures), '%');
    let ghost wanted = views(lines@);
    let mut all_structures: Vec<Structure> = Vec::new();
    let mut at: usize = 0;
    assert(wanted.take(0) =~= Seq::empty());
    assert(structure_views(all_structures@) =~= Seq::empty());
    while at < lines.len()
        invariant
            at <= lines.len(),
            wanted == views(lines@),
            wanted == split(structures@, '%'),
            Some(structure_views(all_structures@)) == structures_of_lines(wanted.take(at as int)),
        decreases lines.len() - at,
    {
        assert(wanted[at as int] == lines@[at as int]@);
        assert(wanted.take(at + 1).drop_last() =~= wanted.take(at as int));
        assert(wanted.take(at + 1).last() == wanted[at as int]);
        let ghost before = structure_views(all_structures@);
        match Structure::try_from_string(string_of(&lines[at]).as_str()) {
            None => {
                proof {
                    assert(structures_of_lines(wanted.take(at + 1)) is None);
                    if structures_of_lines(wanted) is Some {
                        lemma_lines_readable(wanted, at + 1);
                    }
                }
                return None;
            },
            Some(Ok(tmp_structure)) => {
                all_structures.push(tmp_structure);
                assert(structure_views(all_structures@) =~= before.push(tmp_structure@));
            },
            Some(Err(_)) => {},
        }
        at = at + 1;
    }
    assert(wanted.take(wanted.len() as int) =~= wanted);
    Some(all_structures)
}

/// Reads the structures out of a text that holds their lines with `%`
/// between them; lines that hold no structure are passed over.
pub fn get_structures_from_str(structures: &str) -> (all: Vec<Structure>)
    requires
        structures_of_lines(split(structures@, '%')) is Some,
    ensures
        Some(structure_views(all@)) == structures_of_lines(split(structures@, '%')),
{
    match read_structures_from_str(structures) {
        Some(all) => all,
        None => Vec::new(),
    }
}

/// Where all lines can be read, so can the first of them.
pub proof fn lemma_lines_readable(lines: Seq<Seq<char>>, count: int)
    requires
        0 <= count <= lines.len(),
        structures_of_lines(lines) is Some,
    ensures
        structures_of_lines(lines.take(count)) is Some,
    decreases lines.len() - count,
{
    if count == lines.len() {
        assert(lines.take(count) =~= lines);
    } else {
        lemma_lines_readable(lines, count + 1);
        assert(lines.take(count + 1).drop_last() =~= lines.take(count));
    }
}

/// The lines of the structures, joined by `%`.
pub fn turn_structures_to_str(structures: Vec<Structure>) -> (text: String)
    ensures
        text@ == joined_lines(lines_of_structures(structure_views(structures@)), '%'),
{
    Structure::stringify(&structures)
}

/// Whether the characters are the text `true`.
fn is_true(text: &Vec<char>) -> (yes: bool)
    ensures
        yes == (text@ == "true"@),
{
    proof {
        reveal_strlit("true");
    }
    let yes = text.len() == 4 && text[0] == 't' && text[1] == 'r' && text[2] == 'u' && text[3]
        == 'e';
    proof {
        if yes {
            assert(text@ =~= "true"@);
        }
    }
    yes
}

/// Creates in `final_structures` the structure that the pieces of a line
/// write, and tells whether the pieces hold a structure at all; there is
/// no answer, and nothing is done, where the pieces cannot be read. The
/// answer is `true` even where the creation fails; see `added` for the
/// list.
pub fn read_structure(
    array: &Vec<Vec<char>>,
    final_structures: &mut Vec<Structure>,
) -> (held: Option<bool>)
    ensures
        held is Some == can_read(views(array@)),
        held matches Some(answer) ==> answer == holds_structure(views(array@))
            && structure_views(final(final_structures)@) == added(
            structure_views(old(final_structures)@),
            views(array@),
        ),
        held is None ==> structure_views(final(final_structures)@) == structure_views(
            old(final_structures)@,
        ),
{
    let ghost pieces = views(array@);
    assert(pieces.len() == array@.len());
    if array.len() <= 1 {
        return Some(false);
    }
    if array.len() < 5 {
        return None;
    }
    assert(pieces[4] == array@[4]@);
    let min = match parse_unsigned(&array[4], usize::MAX as u64) {
        Some(value) => value as usize,
        None => {
            return Some(false);
        },
    };
    if array.len() < 6 {
        return None;
    }
    assert(pieces[5] == array@[5]@);
    let max = match parse_unsigned(&array[5], usize::MAX as u64) {
        Some(value) => value as usize,
        None => {
            return Some(false);
        },
    };
    if array.len() < 10 {
        return None;
    }
    assert(pieces[0] == array@[0]@);
    assert(pieces[1] == array@[1]@);
    assert(pieces[2] == array@[2]@);
    assert(pieces[3] == array@[3]@);
    assert(pieces[6] == array@[6]@);
    assert(pieces[7] == array@[7]@);
    assert(pieces[8] == array@[8]@);
    assert(pieces[9] == array@[9]@);
    let encrypted = is_true(&array[6]);
    let unique = is_true(&array[7]);
    let is_array = is_true(&array[9]);
    let _ = Structure::create(
        final_structures,
        string_of(&array[0]).as_str(),
        string_of(&array[1]).as_str(),
        string_of(&array[2]).as_str(),
        string_of(&array[3]).as_str(),
        min,
        max,
        encrypted,
        unique,
        string_of(&array[8]).as_str(),
        is_array,
    );
    Some(true)
}

/// The views of a list of texts.
pub open spec fn text_views(texts: Seq<&str>) -> Seq<Seq<char>> {
    Seq::new(texts.len(), |index: int| texts[index]@)
}

/// Creates in `final_structures` the structure that the pieces of a line
/// write, and tells whether the pieces hold a structure at all. It tells
/// so even where the creation fails; see `added` for the list.
pub fn try_add_structure(array: &Vec<&str>, final_structures: &mut Vec<Structure>) -> (held: bool)
    requires
        can_read(text_views(array@)),
    ensures
        held == holds_structure(text_views(array@)),
        structure_views(final(final_structures)@) == added(
            structure_views(old(final_structures)@),
            text_views(array@),
        ),
{
    let mut pieces: Vec<Vec<char>> = Vec::new();
    let mut at: usize = 0;
    while at < array.len()
        invariant
            at <= array.len(),
            views(pieces@) == text_views(array@).take(at as int),
        decreases array.len() - at,
    {
        let ghost before = views(pieces@);
        let piece = chars_of(array[at]);
        pieces.push(piece);
        assert(views(pieces@) =~= before.push(piece@));
        assert(views(pieces@) =~= text_views(array@).take(at + 1));
        at = at + 1;
    }
    assert(text_views(array@).take(array@.len() as int) =~= text_views(array@));
    match read_structure(&pieces, final_structures) {
        Some(held) => held,
        None => false,
    }
}

/// A change of the first structure of an id that keeps the ids of the list
/// keeps every id findable.
pub proof fn lemma_change_keeps_ids(
    all: Seq<StructureView>,
    id: Seq<char>,
    change: spec_fn(StructureView) -> StructureView,
    wanted: Seq<char>,
)
    requires
        forall|item: StructureView| (#[trigger] change(item)).id == item.id,
        is_among(ids_of(all), wanted),
    ensures
        is_among(ids_of(changed_first(all, id, change).list), wanted),
{
    let after = changed_first(all, id, change).list;
    assert(ids_of(after) =~= ids_of(all)) by {
        lemma_first_index_is(ids_of(all), id);
    }
}

/// A structure that was created can be found by the id that it was
/// created under.
pub proof fn law_created_structure_exists(all: Seq<StructureView>, id: Seq<char>, fields: Fields)
    requires
        created(all, id, fields).error is None,
    ensures
        is_among(ids_of(created(all, id, fields).list), id),
{
    let start = all.push(blank());
    let with_id = id_updated(start, placeholder_id(), id);
    lemma_trimmed_alnum(id, seq!['_', '-']);
    lemma_first_index_is(ids_of(start), placeholder_id());
    let at = first_index(ids_of(start), placeholder_id());
    assert(ids_of(with_id.list)[at] == id);
    lemma_first_index_is(ids_of(with_id.list), id);
    assert(is_among(ids_of(with_id.list), id));
    lemma_change_keeps_ids(
        with_id.list,
        id,
        |structure: StructureView| StructureView { name: trimmed(fields.name), ..structure },
        id,
    );
    let s1 = name_updated(with_id.list, id, fields.name);
    lemma_change_keeps_ids(
        s1.list,
        id,
        |structure: StructureView| StructureView { stype: type_of_text(fields.stype_txt), ..structure },
        id,
    );
    let s2 = type_updated(s1.list, id, fields.stype_txt);
    lemma_change_keeps_ids(
        s2.list,
        id,
        |structure: StructureView|
            StructureView { default_val: trimmed(fields.default_val), ..structure },
        id,
    );
    let s3 = default_updated(s2.list, id, fields.default_val);
    lemma_change_keeps_ids(
        s3.list,
        id,
        |structure: StructureView| StructureView { min: fields.min, ..structure },
        id,
    );
    let s4 = min_updated(s3.list, id, fields.min);
    lemma_change_keeps_ids(
        s4.list,
        id,
        |structure: StructureView| StructureView { max: fields.max, ..structure },
        id,
    );
    let s5 = max_updated(s4.list, id, fields.max);
    lemma_change_keeps_ids(
        s5.list,
        id,
        |structure: StructureView| StructureView { encrypted: fields.encrypted, ..structure },
        id,
    );
    let s6 = encrypted_updated(s5.list, id, fields.encrypted);
    lemma_change_keeps_ids(
        s6.list,
        id,
        |structure: StructureView| StructureView { unique: fields.unique, ..structure },
        id,
    );
    let s7 = unique_updated(s6.list, id, fields.unique);
    lemma_change_keeps_ids(
        s7.list,
        id,
        |structure: StructureView|
            StructureView { regex_pattern: trimmed(fields.regex_pattern), ..structure },
        id,
    );
    let s8 = regex_updated(s7.list, id, fields.regex_pattern);
    lemma_change_keeps_ids(
        s8.list,
        id,
        |structure: StructureView| StructureView { array: fields.array, ..structure },
        id,
    );
    let s9 = array_updated(s8.list, id, fields.array);
}

/// No structure of the id is left in the list without them.
pub proof fn lemma_without_id(all: Seq<StructureView>, id: Seq<char>)
    ensures
        !is_among(ids_of(without_id(all, id)), id),
    decreases all.len(),
{
    let left = without_id(all, id);
    if all.len() > 0 {
        lemma_without_id(all.skip(1), id);
        let rest = without_id(all.skip(1), id);
        lemma_first_index_is(ids_of(rest), id);
        lemma_first_index_is(ids_of(left), id);
        if all[0].id != id {
            assert(ids_of(left).skip(1) =~= ids_of(rest));
        }
    } else {
        assert(ids_of(left).len() == 0);
    }
}

/// After a deletion that succeeds, no structure has the id.
pub proof fn law_deleted_is_gone(all: Seq<StructureView>, id: Seq<char>)
    requires
        deleted(all, id).error is None,
    ensures
        !is_among(ids_of(deleted(all, id).list), id),
{
    lemma_without_id(all, id);
}

} // verus!
