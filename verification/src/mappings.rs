//! Mappings from a short id to the file that holds the records of one kind.

use crate::text::{
    all_alnum_or, chars_of, contains_text, ends, failed, fine, has_substring, holds, is_alnum_or,
    joined, joined_lines, push_line, record_lines, same_text, split, split_keeping, split_on,
    string_of, trim, trimmed, views, Outcome,
};
use vstd::prelude::*;

verus! {

/// One mapping: an id and the name of the file that it stands for.
#[derive(Default, Debug, Clone)]
pub struct Mapping {
    id: String,
    file_name: String,
}

/// What a `Mapping` holds.
pub struct MappingView {
    pub id: Seq<char>,
    pub file_name: Seq<char>,
}

impl View for Mapping {
    type V = MappingView;

    closed spec fn view(&self) -> MappingView {
        MappingView { id: self.id@, file_name: self.file_name@ }
    }
}

/// The views of a list of mappings.
pub open spec fn mapping_views(all: Seq<Mapping>) -> Seq<MappingView> {
    Seq::new(all.len(), |index: int| all[index]@)
}

/// Whether a mapping of the list has the id.
pub open spec fn has_id(all: Seq<MappingView>, id: Seq<char>) -> bool {
    exists|index: int| 0 <= index < all.len() && #[trigger] all[index].id == id
}

/// Whether a mapping of the list has the file name.
pub open spec fn has_file_name(all: Seq<MappingView>, file_name: Seq<char>) -> bool {
    exists|index: int| 0 <= index < all.len() && #[trigger] all[index].file_name == file_name
}

/// The list without the mappings of the given id.
pub open spec fn without_id(all: Seq<MappingView>, id: Seq<char>) -> Seq<MappingView>
    decreases all.len(),
{
    if all.len() == 0 {
        all
    } else if all[0].id == id {
        without_id(all.skip(1), id)
    } else {
        seq![all[0]] + without_id(all.skip(1), id)
    }
}

/// The list with the file name put into every mapping of the given id, and
/// the id of each of those trimmed.
pub open spec fn with_file_name(all: Seq<MappingView>, id: Seq<char>, file_name: Seq<char>) -> Seq<
    MappingView,
> {
    Seq::new(
        all.len(),
        |index: int|
            if all[index].id == id {
                MappingView { id: trimmed(all[index].id), file_name: trimmed(file_name) }
            } else {
                all[index]
            },
    )
}

/// Whether a text may name a file: letters and digits only, or anything
/// that holds `.txt`.
pub open spec fn names_file(file_name: Seq<char>) -> bool {
    all_alnum_or(file_name, Seq::empty()) || has_substring(file_name, ".txt"@)
}

/// The message about a character that is not allowed.
pub open spec fn invalid_message(id: Seq<char>) -> Seq<char> {
    "Invalid character (perhaps a symbol?) found in id or file_name ("@ + id + ")"@
}

/// The message about an id that no mapping has.
pub open spec fn missing_message(id: Seq<char>) -> Seq<char> {
    "No Mapping with this id found ("@ + id + ")"@
}

/// What `Mapping::create` does: a mapping of the trimmed id and file name
/// joins the list. The id holds ASCII letters and digits only, or a `_`
/// somewhere; the file name must be able to name a file; and no mapping of
/// the list may have the same id or file name.
pub open spec fn created(all: Seq<MappingView>, id: Seq<char>, file_name: Seq<char>) -> Outcome<
    MappingView,
> {
    if !(all_alnum_or(id, Seq::empty()) || id.contains('_')) || !names_file(file_name) {
        failed(all, invalid_message(id))
    } else if has_id(all, id) || has_file_name(all, file_name) {
        failed(all, "A similar Mapping already exists ("@ + id + ")"@)
    } else {
        fine(all.push(MappingView { id: trimmed(id), file_name: trimmed(file_name) }))
    }
}

/// What `Mapping::update` does: every mapping of the id gets the trimmed
/// file name. The id holds ASCII letters and digits only; the file name
/// must be able to name a file and be the file name of no mapping of the
/// list; and a mapping must have the id.
pub open spec fn updated(all: Seq<MappingView>, id: Seq<char>, file_name: Seq<char>) -> Outcome<
    MappingView,
> {
    if !all_alnum_or(id, Seq::empty()) || !names_file(file_name) {
        failed(all, invalid_message(id))
    } else if has_file_name(all, file_name) {
        failed(
            all,
            "Another Mapping is already using this file_name ("@ + id + ", "@ + file_name + ")"@,
        )
    } else if !has_id(all, id) {
        failed(all, missing_message(id))
    } else {
        fine(with_file_name(all, id, file_name))
    }
}

/// What `Mapping::remove` does: every mapping of the id leaves the list,
/// unless there is none.
pub open spec fn removed(all: Seq<MappingView>, id: Seq<char>) -> Outcome<MappingView> {
    if !has_id(all, id) {
        failed(all, missing_message(id))
    } else {
        fine(without_id(all, id))
    }
}

/// The file name of the first mapping with the id.
pub open spec fn file_name_of(all: Seq<MappingView>, id: Seq<char>) -> Option<Seq<char>>
    decreases all.len(),
{
    if all.len() == 0 {
        None
    } else if all[0].id == id {
        Some(all[0].file_name)
    } else {
        file_name_of(all.skip(1), id)
    }
}

/// The mapping that a line of the form `id=file_name` writes.
pub open spec fn mapping_of_line(line: Seq<char>) -> MappingView {
    MappingView {
        id: trimmed(split(line, '=')[0]),
        file_name: trimmed(split(line, '=')[1]),
    }
}

/// Whether a line has an id and a file name.
pub open spec fn is_mapping_line(line: Seq<char>) -> bool {
    split(line, '=').len() >= 2
}

/// The line that writes a mapping.
pub open spec fn line_of_mapping(mapping: MappingView) -> Seq<char> {
    mapping.id + seq!['='] + mapping.file_name
}

impl Mapping {
    /// A mapping of the trimmed id and file name, with nothing checked.
    pub fn create_no_check(id: &str, file_name: &str) -> (mapping: Mapping)
        ensures
            mapping@ == (MappingView { id: trimmed(id@), file_name: trimmed(file_name@) }),
    {
        Mapping { id: trim(&chars_of(id)), file_name: trim(&chars_of(file_name)) }
    }

    /// Whether a mapping of the list has the id.
    pub fn exist(all_mappings: &Vec<Mapping>, id: &str) -> (found: bool)
        ensures
            found == has_id(mapping_views(all_mappings@), id@),
    {
        let mut at: usize = 0;
        while at < all_mappings.len()
            invariant
                at <= all_mappings.len(),
                forall|index: int| 0 <= index < at ==> mapping_views(all_mappings@)[index].id != id@,
            decreases all_mappings.len() - at,
        {
            if same_text(all_mappings[at].id.as_str(), id) {
                assert(mapping_views(all_mappings@)[at as int].id == id@);
                return true;
            }
            at = at + 1;
        }
        false
    }

    /// Whether a mapping of the list has the file name.
    fn exist_file_name(all_mappings: &Vec<Mapping>, file_name: &str) -> (found: bool)
        ensures
            found == has_file_name(mapping_views(all_mappings@), file_name@),
    {
        let mut at: usize = 0;
        while at < all_mappings.len()
            invariant
                at <= all_mappings.len(),
                forall|index: int|
                    0 <= index < at ==> mapping_views(all_mappings@)[index].file_name
                        != file_name@,
            decreases all_mappings.len() - at,
        {
            if same_text(all_mappings[at].file_name.as_str(), file_name) {
                assert(mapping_views(all_mappings@)[at as int].file_name == file_name@);
                return true;
            }
            at = at + 1;
        }
        false
    }

    /// Tells whether a text may name a file.
    fn names_file(file_name: &Vec<char>) -> (good: bool)
        ensures
            good == names_file(file_name@),
    {
        let plain: Vec<char> = Vec::new();
        is_alnum_or(file_name, &plain) || contains_text(file_name, &chars_of(".txt"))
    }

    /// Adds a mapping; see `created`.
    pub fn create(
        all_mappings: &mut Vec<Mapping>,
        id: &str,
        file_name: &str,
    ) -> (result: Result<(), String>)
        ensures
            ends(
                result,
                mapping_views(final(all_mappings)@),
                created(mapping_views(old(all_mappings)@), id@, file_name@),
            ),
    {
        let id_chars = chars_of(id);
        let file_chars = chars_of(file_name);
        let plain: Vec<char> = Vec::new();
        let ghost before = mapping_views(all_mappings@);
        if (!is_alnum_or(&id_chars, &plain) && !holds(&id_chars, '_')) || !Self::names_file(
            &file_chars,
        ) {
            return Err(
                joined("Invalid character (perhaps a symbol?) found in id or file_name (", id, ")"),
            );
        }
        if Self::exist(all_mappings, id) || Self::exist_file_name(all_mappings, file_name) {
            return Err(joined("A similar Mapping already exists (", id, ")"));
        }
        let mapping = Mapping { id: trim(&id_chars), file_name: trim(&file_chars) };
        all_mappings.push(mapping);
        assert(mapping_views(all_mappings@) =~= before.push(mapping@));
        Ok(())
    }

    /// Puts a file name into the mappings of an id; see `updated`.
    pub fn update(
        all_mappings: &mut Vec<Mapping>,
        id: &str,
        file_name: &str,
    ) -> (result: Result<(), String>)
        ensures
            ends(
                result,
                mapping_views(final(all_mappings)@),
                updated(mapping_views(old(all_mappings)@), id@, file_name@),
            ),
    {
        let id_chars = chars_of(id);
        let file_chars = chars_of(file_name);
        let plain: Vec<char> = Vec::new();
        if !is_alnum_or(&id_chars, &plain) || !Self::names_file(&file_chars) {
            return Err(
                joined("Invalid character (perhaps a symbol?) found in id or file_name (", id, ")"),
            );
        }
        if Self::exist_file_name(all_mappings, file_name) {
            let mut message = joined("Another Mapping is already using this file_name (", id, ", ");
            message.append(file_name);
            message.append(")");
            assert(message@ =~= "Another Mapping is already using this file_name ("@ + id@ + ", "@
                + file_name@ + ")"@);
            return Err(message);
        }
        if !Self::exist(all_mappings, id) {
            return Err(joined("No Mapping with this id found (", id, ")"));
        }
        let ghost before = mapping_views(all_mappings@);
        let mut at: usize = 0;
        while at < all_mappings.len()
            invariant
                at <= all_mappings.len(),
                all_mappings.len() == before.len(),
                file_chars@ == file_name@,
                forall|index: int|
                    0 <= index < at ==> #[trigger] mapping_views(all_mappings@)[index]
                        == with_file_name(before, id@, file_name@)[index],
                forall|index: int|
                    at <= index < before.len() ==> #[trigger] mapping_views(all_mappings@)[index]
                        == before[index],
            decreases all_mappings.len() - at,
        {
            if same_text(all_mappings[at].id.as_str(), id) {
                let ghost current = mapping_views(all_mappings@);
                assert(current[at as int].id == id@);
                let changed = Mapping {
                    id: trim(&chars_of(all_mappings[at].id.as_str())),
                    file_name: trim(&file_chars),
                };
                assert(current[at as int] == before[at as int]);
                all_mappings[at] = changed;
                assert forall|index: int| 0 <= index < before.len() && index != at implies
                    #[trigger] mapping_views(all_mappings@)[index] == current[index] by {}
                assert(mapping_views(all_mappings@)[at as int] == changed@);
                assert(changed@ == with_file_name(before, id@, file_name@)[at as int]);
            } else {
                assert(mapping_views(all_mappings@)[at as int].id != id@);
                assert(mapping_views(all_mappings@)[at as int] == before[at as int]);
                assert(before[at as int] == with_file_name(before, id@, file_name@)[at as int]);
            }
            at = at + 1;
        }
        assert(mapping_views(all_mappings@) =~= with_file_name(before, id@, file_name@));
        Ok(())
    }

    /// Takes the mappings of an id off the list; see `removed`.
    pub fn remove(all_mappings: &mut Vec<Mapping>, id: &str) -> (result: Result<(), String>)
        ensures
            ends(
                result,
                mapping_views(final(all_mappings)@),
                removed(mapping_views(old(all_mappings)@), id@),
            ),
    {
        if !Self::exist(all_mappings, id) {
            return Err(joined("No Mapping with this id found (", id, ")"));
        }
        let ghost before = mapping_views(all_mappings@);
        let mut at: usize = all_mappings.len();
        assert(before.skip(at as int) =~= Seq::empty());
        while at > 0
            invariant
                at <= all_mappings.len(),
                at <= before.len(),
                mapping_views(all_mappings@).take(at as int) == before.take(at as int),
                mapping_views(all_mappings@).skip(at as int) == without_id(
                    before.skip(at as int),
                    id@,
                ),
            decreases at,
        {
            at = at - 1;
            let ghost current = mapping_views(all_mappings@);
            let ghost tail = before.skip(at as int);
            assert(tail.skip(1) =~= before.skip(at + 1));
            assert(tail[0] == before[at as int]);
            assert(current[at as int] == current.take(at + 1)[at as int]);
            assert(before[at as int] == before.take(at + 1)[at as int]);
            if same_text(all_mappings[at].id.as_str(), id) {
                all_mappings.remove(at);
                assert(mapping_views(all_mappings@).skip(at as int) =~= current.skip(at + 1));
            } else {
                assert(current.skip(at as int) =~= seq![current[at as int]] + current.skip(
                    at + 1,
                ));
            }
            assert(mapping_views(all_mappings@).take(at as int) =~= current.take(at + 1).take(
                at as int,
            ));
            assert(before.take(at as int) =~= before.take(at + 1).take(at as int));
        }
        assert(mapping_views(all_mappings@).skip(0) =~= mapping_views(all_mappings@));
        assert(before.skip(0) =~= before);
        Ok(())
    }

    /// The file name.
    pub fn get_file_name(&self) -> (file_name: String)
        ensures
            file_name@ == self@.file_name,
    {
        self.file_name.clone()
    }

    /// The line `id=file_name` that writes the mapping.
    pub fn to_string(mapping: Mapping) -> (line: String)
        ensures
            line@ == line_of_mapping(mapping@),
    {
        proof {
            reveal_strlit("=");
        }
        let line = joined(mapping.id.as_str(), "=", mapping.file_name.as_str());
        assert("="@ =~= seq!['=']);
        line
    }

    /// The mapping that a line of the form `id=file_name` writes; what
    /// follows a second `=` is left out.
    pub fn from_string(mapping_str: &str) -> (mapping: Mapping)
        requires
            is_mapping_line(mapping_str@),
        ensures
            mapping@ == mapping_of_line(mapping_str@),
    {
        Self::from_chars(&chars_of(mapping_str))
    }

    /// The mapping that the characters of a line write.
    fn from_chars(line: &Vec<char>) -> (mapping: Mapping)
        requires
            is_mapping_line(line@),
        ensures
            mapping@ == mapping_of_line(line@),
    {
        let pieces = split_on(line, '=');
        assert(views(pieces@).len() == pieces@.len());
        assert(views(pieces@)[0] == pieces@[0]@);
        assert(views(pieces@)[1] == pieces@[1]@);
        Mapping { id: trim(&pieces[0]), file_name: trim(&pieces[1]) }
    }
}

/// The mappings that the lines write, one for each line.
pub open spec fn mappings_of_lines(lines: Seq<Seq<char>>) -> Seq<MappingView> {
    Seq::new(lines.len(), |index: int| mapping_of_line(lines[index]))
}

/// Whether every line that holds a record has an id and a file name.
pub open spec fn is_mappings_text(text: Seq<char>) -> bool {
    all_mapping_lines(record_lines(text))
}

/// The lines that write the mappings.
pub open spec fn lines_of_mappings(all: Seq<MappingView>) -> Seq<Seq<char>> {
    Seq::new(all.len(), |index: int| line_of_mapping(all[index]))
}

/// Whether every one of the lines has an id and a file name.
pub open spec fn all_mapping_lines(lines: Seq<Seq<char>>) -> bool {
    forall|index: int| 0 <= index < lines.len() ==> is_mapping_line(#[trigger] lines[index])
}

/// The mappings that the lines write, where every line writes one.
fn mappings_from_lines(lines: &Vec<Vec<char>>) -> (result: Option<Vec<Mapping>>)
    ensures
        result is Some == all_mapping_lines(views(lines@)),
        result matches Some(all) ==> mapping_views(all@) == mappings_of_lines(views(lines@)),
{
    let ghost wanted = views(lines@);
    let mut all: Vec<Mapping> = Vec::new();
    let mut at: usize = 0;
    while at < lines.len()
        invariant
            at <= lines.len(),
            views(lines@) == wanted,
            forall|index: int| 0 <= index < at ==> is_mapping_line(#[trigger] wanted[index]),
            mapping_views(all@) == mappings_of_lines(wanted.take(at as int)),
        decreases lines.len() - at,
    {
        assert(views(lines@)[at as int] == lines@[at as int]@);
        let pieces = split_on(&lines[at], '=');
        assert(views(pieces@).len() == pieces@.len());
        if pieces.len() < 2 {
            assert(!is_mapping_line(wanted[at as int]));
            return None;
        }
        assert(views(pieces@)[0] == pieces@[0]@);
        assert(views(pieces@)[1] == pieces@[1]@);
        let ghost before = mapping_views(all@);
        let mapping = Mapping { id: trim(&pieces[0]), file_name: trim(&pieces[1]) };
        all.push(mapping);
        assert(mapping_views(all@) =~= before.push(mapping@));
        assert(mapping_views(all@) =~= mappings_of_lines(wanted.take(at + 1)));
        at = at + 1;
    }
    assert(wanted.take(wanted.len() as int) =~= wanted);
    Some(all)
}

/// Reads the mappings out of the text of a mappings file: one from each
/// line of three characters or more. There is no result where such a line
/// lacks the `=`.
pub fn read_all_mappings(all_mappings_raw: &str) -> (result: Option<Vec<Mapping>>)
    ensures
        result is Some == is_mappings_text(all_mappings_raw@),
        result matches Some(all) ==> mapping_views(all@) == mappings_of_lines(
            record_lines(all_mappings_raw@),
        ),
{
    let lines = split_keeping(&chars_of(all_mappings_raw), '\n', 3);
    mappings_from_lines(&lines)
}

/// Reads the mappings out of the text of a mappings file: one from each
/// line of three characters or more.
pub fn fetch_all_mappings(all_mappings_raw: &str) -> (all: Vec<Mapping>)
    requires
        is_mappings_text(all_mappings_raw@),
    ensures
        mapping_views(all@) == mappings_of_lines(record_lines(all_mappings_raw@)),
{
    match read_all_mappings(all_mappings_raw) {
        Some(all) => all,
        None => Vec::new(),
    }
}

/// Reads the mappings out of a text that holds one in each of its lines.
/// There is no result where a line lacks the `=`.
pub fn read_mappings_from_str(mappings: &str) -> (result: Option<Vec<Mapping>>)
    ensures
        result is Some == all_mapping_lines(split(mappings@, '\n')),
        result matches Some(all) ==> mapping_views(all@) == mappings_of_lines(
            split(mappings@, '\n'),
        ),
{
    let lines = split_on(&chars_of(mappings), '\n');
    mappings_from_lines(&lines)
}

/// Reads the mappings out of a text that holds one in each of its lines.
pub fn get_mappings_from_str(mappings: &str) -> (all: Vec<Mapping>)
    requires
        all_mapping_lines(split(mappings@, '\n')),
    ensures
        mapping_views(all@) == mappings_of_lines(split(mappings@, '\n')),
{
    match read_mappings_from_str(mappings) {
        Some(all) => all,
        None => Vec::new(),
    }
}

/// The file name of the first mapping with the id.
pub fn get_file_name(id: &str, mappings: &Vec<Mapping>) -> (result: Result<String, String>)
    ensures
        match file_name_of(mapping_views(mappings@), id@) {
            Some(file_name) => result matches Ok(text) && text@ == file_name,
            None => result matches Err(text) && text@ == "Error: No mapping with this id"@,
        },
{
    let ghost all = mapping_views(mappings@);
    let mut at: usize = 0;
    assert(all.skip(0) =~= all);
    while at < mappings.len()
        invariant
            at <= mappings.len(),
            all == mapping_views(mappings@),
            file_name_of(all, id@) == file_name_of(all.skip(at as int), id@),
        decreases mappings.len() - at,
    {
        let ghost rest = all.skip(at as int);
        assert(rest[0] == all[at as int]);
        assert(rest.skip(1) =~= all.skip(at + 1));
        if same_text(mappings[at].id.as_str(), id) {
            return Ok(mappings[at].file_name.clone());
        }
        at = at + 1;
    }
    Err(String::from_str("Error: No mapping with this id"))
}

/// The text of a mappings file: the lines of the mappings, joined.
pub fn turn_mappings_to_str(mappings: Vec<Mapping>) -> (text: String)
    ensures
        text@ == joined_lines(lines_of_mappings(mapping_views(mappings@)), '\n'),
{
    let ghost lines = lines_of_mappings(mapping_views(mappings@));
    let mut joined: Vec<char> = Vec::new();
    let mut at: usize = 0;
    assert(lines.take(0) =~= Seq::empty());
    while at < mappings.len()
        invariant
            at <= mappings.len(),
            lines == lines_of_mappings(mapping_views(mappings@)),
            joined@ == joined_lines(lines.take(at as int), '\n'),
        decreases mappings.len() - at,
    {
        proof {
            reveal_strlit("=");
        }
        let line = crate::text::joined(
            mappings[at].id.as_str(),
            "=",
            mappings[at].file_name.as_str(),
        );
        assert("="@ =~= seq!['=']);
        assert(line@ == lines[at as int]);
        assert(lines.take(at + 1).drop_last() =~= lines.take(at as int));
        push_line(&mut joined, '\n', line.as_str());
        at = at + 1;
    }
    assert(lines.take(lines.len() as int) =~= lines);
    string_of(&joined)
}

} // verus!
