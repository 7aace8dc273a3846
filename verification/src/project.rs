//! Projects: an id, a name, a description and the path of an API.

use crate::text::{
    all_alnum_or, byte_len, chars_of, check_length, ends, failed, fine, first_index, holds,
    is_alnum_or, is_among, joined_lines, lemma_first_index, lemma_first_index_is,
    lemma_trimmed_alnum, length_error, lowercase, push_line, record_lines, same_text, split,
    split_keeping, split_on, string_of, trim, trimmed, views, Outcome,
};
use vstd::prelude::*;

verus! {

/// One project.
#[derive(Default, Debug, Clone)]
pub struct Project {
    id: String,
    name: String,
    description: String,
    api_path: String,
}

/// What a `Project` holds.
pub struct ProjectView {
    pub id: Seq<char>,
    pub name: Seq<char>,
    pub description: Seq<char>,
    pub api_path: Seq<char>,
}

impl View for Project {
    type V = ProjectView;

    closed spec fn view(&self) -> ProjectView {
        ProjectView {
            id: self.id@,
            name: self.name@,
            description: self.description@,
            api_path: self.api_path@,
        }
    }
}

/// The views of a list of projects.
pub open spec fn project_views(all: Seq<Project>) -> Seq<ProjectView> {
    Seq::new(all.len(), |index: int| all[index]@)
}

/// The ids of the projects, in order.
pub open spec fn ids_of(all: Seq<ProjectView>) -> Seq<Seq<char>> {
    Seq::new(all.len(), |index: int| all[index].id)
}

/// The API paths of the projects, in order.
pub open spec fn api_paths_of(all: Seq<ProjectView>) -> Seq<Seq<char>> {
    Seq::new(all.len(), |index: int| all[index].api_path)
}

/// The list without the projects of the given id.
pub open spec fn without_id(all: Seq<ProjectView>, id: Seq<char>) -> Seq<ProjectView>
    decreases all.len(),
{
    if all.len() == 0 {
        all
    } else if all[0].id == id {
        without_id(all.skip(1), id)
    } else {
        seq![all[0]] + without_id(all.skip(1), id)
    }
}

/// The id that a project has while it is being created.
pub open spec fn placeholder_id() -> Seq<char> {
    "test;"@
}

/// A project with the placeholder id and nothing else.
pub open spec fn blank() -> ProjectView {
    ProjectView {
        id: placeholder_id(),
        name: Seq::empty(),
        description: Seq::empty(),
        api_path: Seq::empty(),
    }
}

/// The list with `change` put on the first project of the id; without such
/// a project the operation fails.
pub open spec fn changed_first(
    all: Seq<ProjectView>,
    id: Seq<char>,
    change: spec_fn(ProjectView) -> ProjectView,
) -> Outcome<ProjectView> {
    let at = first_index(ids_of(all), id);
    if at == all.len() {
        failed(all, "Error: Project not found"@)
    } else {
        fine(all.update(at, change(all[at])))
    }
}

/// What `Project::update_id` does: the first project of the id gets the
/// trimmed new id. The new id must not be the id of a project of the list,
/// may hold ASCII letters and digits, `_` and `-`, and has, trimmed,
/// between 1 and 100 bytes.
pub open spec fn id_updated(all: Seq<ProjectView>, id: Seq<char>, new_id: Seq<char>) -> Outcome<
    ProjectView,
> {
    if is_among(ids_of(all), new_id) {
        failed(all, "Error: id is already in use"@)
    } else if !all_alnum_or(new_id, seq!['_', '-']) {
        failed(all, "Error: new_id contains an invalid character"@)
    } else {
        match length_error(
            new_id,
            1,
            100,
            "Error: id does not contain enough characters"@,
            "Error: id contains too many characters"@,
        ) {
            Some(message) => failed(all, message),
            None => changed_first(
                all,
                id,
                |project: ProjectView| ProjectView { id: trimmed(new_id), ..project },
            ),
        }
    }
}

/// What `Project::update_name` does: the first project of the id gets the
/// trimmed name, which may hold ASCII letters and digits, spaces, `-` and
/// `_`, and has, trimmed, between 1 and 100 bytes.
pub open spec fn name_updated(all: Seq<ProjectView>, id: Seq<char>, name: Seq<char>) -> Outcome<
    ProjectView,
> {
    if !all_alnum_or(name, seq![' ', '-', '_']) {
        failed(all, "Error: name contains an invalid character"@)
    } else {
        match length_error(
            name,
            1,
            100,
            "Error: name does not contain enough characters"@,
            "Error: name contains too many characters"@,
        ) {
            Some(message) => failed(all, message),
            None => changed_first(
                all,
                id,
                |project: ProjectView| ProjectView { name: trimmed(name), ..project },
            ),
        }
    }
}

/// What `Project::update_description` does: the first project of the id
/// gets the trimmed description, which holds no `;` unless it is blank, and
/// has, trimmed, at most 400 bytes.
pub open spec fn description_updated(
    all: Seq<ProjectView>,
    id: Seq<char>,
    description: Seq<char>,
) -> Outcome<ProjectView> {
    if byte_len(trimmed(description)) > 0 && description.contains(';') {
        failed(all, "Error: description contains an invalid character"@)
    } else if byte_len(trimmed(description)) > 400 {
        failed(all, "Error: description contains too many characters"@)
    } else {
        changed_first(
            all,
            id,
            |project: ProjectView| ProjectView { description: trimmed(description), ..project },
        )
    }
}

/// What `Project::update_api_path` does: the first project of the id gets
/// the trimmed path. The path must not be the path of a project of the
/// list, may hold ASCII letters and digits, `_` and `/`, must be its own
/// lowercase form, and has, trimmed, between 1 and 50 bytes.
pub open spec fn api_path_updated(
    all: Seq<ProjectView>,
    id: Seq<char>,
    api_path: Seq<char>,
) -> Outcome<ProjectView> {
    if is_among(api_paths_of(all), api_path) {
        failed(all, "Error: api_path is already in use"@)
    } else if !all_alnum_or(api_path, seq!['_', '/']) {
        failed(all, "Error: api_path contains an invalid character"@)
    } else if lowercase(api_path) != api_path {
        failed(
            all,
            "Error: api_path should not contain uppercase alphabetical character(s)"@,
        )
    } else {
        match length_error(
            api_path,
            1,
            50,
            "Error: api_path does not contain enough characters"@,
            "Error: api_path contains too many characters"@,
        ) {
            Some(message) => failed(all, message),
            None => changed_first(
                all,
                id,
                |project: ProjectView| ProjectView { api_path: trimmed(api_path), ..project },
            ),
        }
    }
}

/// What `Project::delete` does: every project of the id leaves the list,
/// unless there is none.
pub open spec fn deleted(all: Seq<ProjectView>, id: Seq<char>) -> Outcome<ProjectView> {
    if !is_among(ids_of(all), id) {
        failed(all, "Error: Project not found"@)
    } else {
        fine(without_id(all, id))
    }
}

/// A failed step of a creation undone: the projects of the id are deleted
/// and the step's error stays.
pub open spec fn undone(step: Outcome<ProjectView>, id: Seq<char>) -> Outcome<ProjectView> {
    failed(deleted(step.list, id).list, step.error->Some_0)
}

/// What `Project::create` does.
///
/// A blank project joins the list under the placeholder id and is then
/// given the id, the name, the description and the API path, each as its
/// update does it and each found by the id as it was passed in. The first
/// update that fails ends the creation: the projects of the id that the
/// search went by are deleted, and the update's error is the result.
pub open spec fn created(
    all: Seq<ProjectView>,
    id: Seq<char>,
    name: Seq<char>,
    description: Seq<char>,
    api_path: Seq<char>,
) -> Outcome<ProjectView> {
    let with_id = id_updated(all.push(blank()), placeholder_id(), id);
    if with_id.error is Some {
        undone(with_id, placeholder_id())
    } else {
        let with_name = name_updated(with_id.list, id, name);
        if with_name.error is Some {
            undone(with_name, id)
        } else {
            let with_description = description_updated(with_name.list, id, description);
            if with_description.error is Some {
                undone(with_description, id)
            } else {
                let with_path = api_path_updated(with_description.list, id, api_path);
                if with_path.error is Some {
                    undone(with_path, id)
                } else {
                    with_path
                }
            }
        }
    }
}

/// The line that writes a project.
pub open spec fn line_of_project(project: ProjectView) -> Seq<char> {
    project.id + seq![';'] + project.name + seq![';'] + project.description + seq![';']
        + project.api_path
}

/// The lines that write the projects.
pub open spec fn lines_of_projects(all: Seq<ProjectView>) -> Seq<Seq<char>> {
    Seq::new(all.len(), |index: int| line_of_project(all[index]))
}

/// Whether a line has the four fields of a project.
pub open spec fn is_project_line(line: Seq<char>) -> bool {
    split(line, ';').len() >= 4
}

/// The project that a line of the form `id;name;description;api_path`
/// writes.
pub open spec fn project_of_line(line: Seq<char>) -> ProjectView {
    ProjectView {
        id: split(line, ';')[0],
        name: split(line, ';')[1],
        description: split(line, ';')[2],
        api_path: split(line, ';')[3],
    }
}

/// The projects that the lines write, one for each line.
pub open spec fn projects_of_lines(lines: Seq<Seq<char>>) -> Seq<ProjectView> {
    Seq::new(lines.len(), |index: int| project_of_line(lines[index]))
}

/// Whether every line has the four fields of a project.
pub open spec fn all_project_lines(lines: Seq<Seq<char>>) -> bool {
    forall|index: int| 0 <= index < lines.len() ==> is_project_line(#[trigger] lines[index])
}

impl Project {
    /// A project of the given fields, with nothing checked or trimmed.
    pub fn create_no_check(
        id: &str,
        name: &str,
        description: &str,
        api_path: &str,
    ) -> (project: Project)
        ensures
            project@ == (ProjectView {
                id: id@,
                name: name@,
                description: description@,
                api_path: api_path@,
            }),
    {
        Project {
            id: String::from_str(id),
            name: String::from_str(name),
            description: String::from_str(description),
            api_path: String::from_str(api_path),
        }
    }

    /// Position of the first project with the id, or the length of the
    /// list.
    fn position(all_projects: &Vec<Project>, id: &str) -> (at: usize)
        ensures
            at == first_index(ids_of(project_views(all_projects@)), id@),
            at <= all_projects.len(),
    {
        let ghost ids = ids_of(project_views(all_projects@));
        let mut at: usize = 0;
        while at < all_projects.len()
            invariant
                at <= all_projects.len(),
                ids == ids_of(project_views(all_projects@)),
                forall|index: int| 0 <= index < at ==> #[trigger] ids[index] != id@,
            decreases all_projects.len() - at,
        {
            if same_text(all_projects[at].id.as_str(), id) {
                proof {
                    assert(ids[at as int] == id@);
                    lemma_first_index(ids, id@, at as int);
                }
                return at;
            }
            assert(ids[at as int] != id@);
            at = at + 1;
        }
        proof {
            lemma_first_index(ids, id@, at as int);
        }
        at
    }

    /// Position of the first project with the API path, or the length of
    /// the list.
    fn position_of_path(all_projects: &Vec<Project>, api_path: &str) -> (at: usize)
        ensures
            at == first_index(api_paths_of(project_views(all_projects@)), api_path@),
            at <= all_projects.len(),
    {
        let ghost paths = api_paths_of(project_views(all_projects@));
        let mut at: usize = 0;
        while at < all_projects.len()
            invariant
                at <= all_projects.len(),
                paths == api_paths_of(project_views(all_projects@)),
                forall|index: int| 0 <= index < at ==> #[trigger] paths[index] != api_path@,
            decreases all_projects.len() - at,
        {
            if same_text(all_projects[at].api_path.as_str(), api_path) {
                proof {
                    assert(paths[at as int] == api_path@);
                    lemma_first_index(paths, api_path@, at as int);
                }
                return at;
            }
            assert(paths[at as int] != api_path@);
            at = at + 1;
        }
        proof {
            lemma_first_index(paths, api_path@, at as int);
        }
        at
    }

    /// A copy of the project at `at`.
    fn copy_of(all_projects: &Vec<Project>, at: usize) -> (project: Project)
        requires
            at < all_projects.len(),
        ensures
            project@ == project_views(all_projects@)[at as int],
    {
        Project {
            id: all_projects[at].id.clone(),
            name: all_projects[at].name.clone(),
            description: all_projects[at].description.clone(),
            api_path: all_projects[at].api_path.clone(),
        }
    }

    /// Puts `project` in the place of the first project of the id.
    fn put(all_projects: &mut Vec<Project>, at: usize, project: Project)
        requires
            at < old(all_projects).len(),
        ensures
            project_views(final(all_projects)@) == project_views(old(all_projects)@).update(
                at as int,
                project@,
            ),
    {
        all_projects[at] = project;
        assert(project_views(all_projects@) =~= project_views(old(all_projects)@).update(
            at as int,
            project@,
        ));
    }

    /// Whether a project of the list has the id.
    pub fn exist(all_projects: &Vec<Project>, id: &str) -> (found: bool)
        ensures
            found == is_among(ids_of(project_views(all_projects@)), id@),
    {
        Self::position(all_projects, id) < all_projects.len()
    }

    /// Adds a project; see `created`.
    pub fn create(
        all_projects: &mut Vec<Project>,
        id: &str,
        name: &str,
        description: &str,
        api_path: &str,
    ) -> (result: Result<(), String>)
        ensures
            ends(
                result,
                project_views(final(all_projects)@),
                created(project_views(old(all_projects)@), id@, name@, description@, api_path@),
            ),
    {
        let tmp_id = String::from_str("test;");
        let new_id = String::from_str(id);
        let ghost before = project_views(all_projects@);
        let new_project = Project {
            id: tmp_id.clone(),
            name: String::new(),
            description: String::new(),
            api_path: String::new(),
        };
        all_projects.push(new_project);
        assert(project_views(all_projects@) =~= before.push(blank()));
        if let Err(error) = Self::update_id(all_projects, &tmp_id, id) {
            let _ = Self::delete(all_projects, &tmp_id);
            return Err(error);
        }
        if let Err(error) = Self::update_name(all_projects, &new_id, name) {
            let _ = Self::delete(all_projects, &new_id);
            return Err(error);
        }
        if let Err(error) = Self::update_description(all_projects, &new_id, description) {
            let _ = Self::delete(all_projects, &new_id);
            return Err(error);
        }
        if let Err(error) = Self::update_api_path(all_projects, &new_id, api_path) {
            let _ = Self::delete(all_projects, &new_id);
            return Err(error);
        }
        Ok(())
    }

    /// Changes the id of a project; see `id_updated`.
    pub fn update_id(
        all_projects: &mut Vec<Project>,
        id: &String,
        new_id: &str,
    ) -> (result: Result<(), String>)
        ensures
            ends(
                result,
                project_views(final(all_projects)@),
                id_updated(project_views(old(all_projects)@), id@, new_id@),
            ),
    {
        if Self::position(all_projects, new_id) < all_projects.len() {
            return Err(String::from_str("Error: id is already in use"));
        }
        let chars = chars_of(new_id);
        let extra: Vec<char> = vec!['_', '-'];
        assert(extra@ =~= seq!['_', '-']);
        if !is_alnum_or(&chars, &extra) {
            return Err(String::from_str("Error: new_id contains an invalid character"));
        }
        let short = trim(&chars);
        if let Some(message) = check_length(
            &short,
            1,
            100,
            "Error: id does not contain enough characters",
            "Error: id contains too many characters",
        ) {
            return Err(message);
        }
        let at = Self::position(all_projects, id.as_str());
        if at == all_projects.len() {
            return Err(String::from_str("Error: Project not found"));
        }
        let mut project = Self::copy_of(all_projects, at);
        project.id = short;
        Self::put(all_projects, at, project);
        Ok(())
    }

    /// Changes the name of a project; see `name_updated`.
    pub fn update_name(
        all_projects: &mut Vec<Project>,
        id: &String,
        name: &str,
    ) -> (result: Result<(), String>)
        ensures
            ends(
                result,
                project_views(final(all_projects)@),
                name_updated(project_views(old(all_projects)@), id@, name@),
            ),
    {
        let chars = chars_of(name);
        let extra: Vec<char> = vec![' ', '-', '_'];
        assert(extra@ =~= seq![' ', '-', '_']);
        if !is_alnum_or(&chars, &extra) {
            return Err(String::from_str("Error: name contains an invalid character"));
        }
        let short = trim(&chars);
        if let Some(message) = check_length(
            &short,
            1,
            100,
            "Error: name does not contain enough characters",
            "Error: name contains too many characters",
        ) {
            return Err(message);
        }
        let at = Self::position(all_projects, id.as_str());
        if at == all_projects.len() {
            return Err(String::from_str("Error: Project not found"));
        }
        let mut project = Self::copy_of(all_projects, at);
        project.name = short;
        Self::put(all_projects, at, project);
        Ok(())
    }

    /// Changes the description of a project; see `description_updated`.
    pub fn update_description(
        all_projects: &mut Vec<Project>,
        id: &String,
        description: &str,
    ) -> (result: Result<(), String>)
        ensures
            ends(
                result,
                project_views(final(all_projects)@),
                description_updated(project_views(old(all_projects)@), id@, description@),
            ),
    {
        let chars = chars_of(description);
        let short = trim(&chars);
        let length = short.as_str().as_bytes().len();
        if length > 0 && holds(&chars, ';') {
            return Err(String::from_str("Error: description contains an invalid character"));
        }
        if length > 400 {
            return Err(String::from_str("Error: description contains too many characters"));
        }
        let at = Self::position(all_projects, id.as_str());
        if at == all_projects.len() {
            return Err(String::from_str("Error: Project not found"));
        }
        let mut project = Self::copy_of(all_projects, at);
        project.description = short;
        Self::put(all_projects, at, project);
        Ok(())
    }

    /// Changes the API path of a project; see `api_path_updated`.
    pub fn update_api_path(
        all_projects: &mut Vec<Project>,
        id: &String,
        api_path: &str,
    ) -> (result: Result<(), String>)
        ensures
            ends(
                result,
                project_views(final(all_projects)@),
                api_path_updated(project_views(old(all_projects)@), id@, api_path@),
            ),
    {
        if Self::position_of_path(all_projects, api_path) < all_projects.len() {
            return Err(String::from_str("Error: api_path is already in use"));
        }
        let chars = chars_of(api_path);
        let extra: Vec<char> = vec!['_', '/'];
        assert(extra@ =~= seq!['_', '/']);
        if !is_alnum_or(&chars, &extra) {
            return Err(String::from_str("Error: api_path contains an invalid character"));
        }
        let lowered = api_path.to_lowercase();
        if !same_text(lowered.as_str(), api_path) {
            return Err(
                String::from_str(
                    "Error: api_path should not contain uppercase alphabetical character(s)",
                ),
            );
        }
        let short = trim(&chars);
        if let Some(message) = check_length(
            &short,
            1,
            50,
            "Error: api_path does not contain enough characters",
            "Error: api_path contains too many characters",
        ) {
            return Err(message);
        }
        let at = Self::position(all_projects, id.as_str());
        if at == all_projects.len() {
            return Err(String::from_str("Error: Project not found"));
        }
        let mut project = Self::copy_of(all_projects, at);
        project.api_path = short;
        Self::put(all_projects, at, project);
        Ok(())
    }

    /// Deletes the projects of an id; see `deleted`.
    pub fn delete(all_projects: &mut Vec<Project>, id: &String) -> (result: Result<(), String>)
        ensures
            ends(
                result,
                project_views(final(all_projects)@),
                deleted(project_views(old(all_projects)@), id@),
            ),
    {
        if Self::position(all_projects, id.as_str()) == all_projects.len() {
            return Err(String::from_str("Error: Project not found"));
        }
        let ghost before = project_views(all_projects@);
        let mut at: usize = all_projects.len();
        assert(before.skip(at as int) =~= Seq::empty());
        while at > 0
            invariant
                at <= all_projects.len(),
                at <= before.len(),
                project_views(all_projects@).take(at as int) == before.take(at as int),
                project_views(all_projects@).skip(at as int) == without_id(
                    before.skip(at as int),
                    id@,
                ),
            decreases at,
        {
            at = at - 1;
            let ghost current = project_views(all_projects@);
            let ghost tail = before.skip(at as int);
            assert(tail.skip(1) =~= before.skip(at + 1));
            assert(tail[0] == before[at as int]);
            assert(current[at as int] == current.take(at + 1)[at as int]);
            assert(before[at as int] == before.take(at + 1)[at as int]);
            if same_text(all_projects[at].id.as_str(), id.as_str()) {
                all_projects.remove(at);
                assert(project_views(all_projects@).skip(at as int) =~= current.skip(at + 1));
            } else {
                assert(current.skip(at as int) =~= seq![current[at as int]] + current.skip(
                    at + 1,
                ));
            }
            assert(project_views(all_projects@).take(at as int) =~= current.take(at + 1).take(
                at as int,
            ));
            assert(before.take(at as int) =~= before.take(at + 1).take(at as int));
        }
        assert(project_views(all_projects@).skip(0) =~= project_views(all_projects@));
        assert(before.skip(0) =~= before);
        Ok(())
    }

    /// The line that writes the project.
    pub fn to_string(project: Project) -> (line: String)
        ensures
            line@ == line_of_project(project@),
    {
        Self::line(&project)
    }

    /// The line that writes the project.
    fn line(project: &Project) -> (line: String)
        ensures
            line@ == line_of_project(project@),
    {
        proof {
            reveal_strlit(";");
        }
        let mut line = String::new();
        line.append(project.id.as_str());
        line.append(";");
        line.append(project.name.as_str());
        line.append(";");
        line.append(project.description.as_str());
        line.append(";");
        line.append(project.api_path.as_str());
        assert(";"@ =~= seq![';']);
        assert(line@ =~= line_of_project(project@));
        line
    }

    /// The project that the characters of a line write.
    fn from_chars(line: &Vec<char>) -> (project: Project)
        requires
            is_project_line(line@),
        ensures
            project@ == project_of_line(line@),
    {
        let pieces = split_on(line, ';');
        assert(views(pieces@).len() == pieces@.len());
        assert(views(pieces@)[0] == pieces@[0]@);
        assert(views(pieces@)[1] == pieces@[1]@);
        assert(views(pieces@)[2] == pieces@[2]@);
        assert(views(pieces@)[3] == pieces@[3]@);
        Project {
            id: string_of(&pieces[0]),
            name: string_of(&pieces[1]),
            description: string_of(&pieces[2]),
            api_path: string_of(&pieces[3]),
        }
    }
}

/// The projects that the lines write, where every line writes one.
fn projects_from_lines(lines: &Vec<Vec<char>>) -> (result: Option<Vec<Project>>)
    ensures
        result is Some == all_project_lines(views(lines@)),
        result matches Some(all) ==> project_views(all@) == projects_of_lines(views(lines@)),
{
    let ghost wanted = views(lines@);
    let mut all: Vec<Project> = Vec::new();
    let mut at: usize = 0;
    while at < lines.len()
        invariant
            at <= lines.len(),
            views(lines@) == wanted,
            forall|index: int| 0 <= index < at ==> is_project_line(#[trigger] wanted[index]),
            project_views(all@) == projects_of_lines(wanted.take(at as int)),
        decreases lines.len() - at,
    {
        assert(views(lines@)[at as int] == lines@[at as int]@);
        let pieces = split_on(&lines[at], ';');
        assert(views(pieces@).len() == pieces@.len());
        if pieces.len() < 4 {
            assert(!is_project_line(wanted[at as int]));
            return None;
        }
        let ghost before = project_views(all@);
        let project = Project::from_chars(&lines[at]);
        all.push(project);
        assert(project_views(all@) =~= before.push(project@));
        assert(project_views(all@) =~= projects_of_lines(wanted.take(at + 1)));
        at = at + 1;
    }
    assert(wanted.take(wanted.len() as int) =~= wanted);
    Some(all)
}

/// Reads the projects out of the text of a projects file: one from each
/// line of three characters or more. There is no result where such a line
/// has fewer than four fields.
pub fn read_all_projects(all_projects_raw: &str) -> (result: Option<Vec<Project>>)
    ensures
        result is Some == all_project_lines(record_lines(all_projects_raw@)),
        result matches Some(all) ==> project_views(all@) == projects_of_lines(
            record_lines(all_projects_raw@),
        ),
{
    let lines = split_keeping(&chars_of(all_projects_raw), '\n', 3);
    projects_from_lines(&lines)
}

/// Reads the projects out of the text of a projects file: one from each
/// line of three characters or more.
pub fn fetch_all_projects(all_projects_raw: &str) -> (all: Vec<Project>)
    requires
        all_project_lines(record_lines(all_projects_raw@)),
    ensures
        project_views(all@) == projects_of_lines(record_lines(all_projects_raw@)),
{
    match read_all_projects(all_projects_raw) {
        Some(all) => all,
        None => Vec::new(),
    }
}

/// The text of a projects file: the lines of the projects, joined.
pub fn turn_projects_to_str(projects: Vec<Project>) -> (text: String)
    ensures
        text@ == joined_lines(lines_of_projects(project_views(projects@)), '\n'),
{
    let ghost lines = lines_of_projects(project_views(projects@));
    let mut joined: Vec<char> = Vec::new();
    let mut at: usize = 0;
    assert(lines.take(0) =~= Seq::empty());
    while at < projects.len()
        invariant
            at <= projects.len(),
            lines == lines_of_projects(project_views(projects@)),
            joined@ == joined_lines(lines.take(at as int), '\n'),
        decreases projects.len() - at,
    {
        let line = Project::line(&projects[at]);
        assert(line@ == lines[at as int]);
        assert(lines.take(at + 1).drop_last() =~= lines.take(at as int));
        push_line(&mut joined, '\n', line.as_str());
        at = at + 1;
    }
    assert(lines.take(lines.len() as int) =~= lines);
    string_of(&joined)
}

/// A change of the first project of an id that keeps the ids of the list
/// keeps every id findable.
pub proof fn lemma_change_keeps_ids(
    all: Seq<ProjectView>,
    id: Seq<char>,
    change: spec_fn(ProjectView) -> ProjectView,
    wanted: Seq<char>,
)
    requires
        forall|item: ProjectView| (#[trigger] change(item)).id == item.id,
        is_among(ids_of(all), wanted),
    ensures
        is_among(ids_of(changed_first(all, id, change).list), wanted),
{
    let after = changed_first(all, id, change).list;
    assert(ids_of(after) =~= ids_of(all)) by {
        lemma_first_index_is(ids_of(all), id);
    }
}

/// A project that was created can be found by the id that it was created
/// under.
pub proof fn law_created_project_exists(
    all: Seq<ProjectView>,
    id: Seq<char>,
    name: Seq<char>,
    description: Seq<char>,
    api_path: Seq<char>,
)
    requires
        created(all, id, name, description, api_path).error is None,
    ensures
        is_among(ids_of(created(all, id, name, description, api_path).list), id),
{
    let start = all.push(blank());
    let with_id = id_updated(start, placeholder_id(), id);
    lemma_trimmed_alnum(id, seq!['_', '-']);
    lemma_first_index_is(ids_of(start), placeholder_id());
    let at = first_index(ids_of(start), placeholder_id());
    assert(ids_of(with_id.list)[at] == id);
    lemma_first_index_is(ids_of(with_id.list), id);
    assert(is_among(ids_of(with_id.list), id));
    let with_name = name_updated(with_id.list, id, name);
    lemma_change_keeps_ids(
        with_id.list,
        id,
        |project: ProjectView| ProjectView { name: trimmed(name), ..project },
        id,
    );
    let with_description = description_updated(with_name.list, id, description);
    lemma_change_keeps_ids(
        with_name.list,
        id,
        |project: ProjectView| ProjectView { description: trimmed(description), ..project },
        id,
    );
    lemma_change_keeps_ids(
        with_description.list,
        id,
        |project: ProjectView| ProjectView { api_path: trimmed(api_path), ..project },
        id,
    );
}

/// No project of the id is left in the list without them.
pub proof fn lemma_without_id(all: Seq<ProjectView>, id: Seq<char>)
    ensures
        !is_among(ids_of(without_id(all, id)), id),
    decreases all.len(),
{
    let left = without_id(all, id);
    if all.len() > 0 {
        lemma_without_id(all.skip(1), id);
        let rest = without_id(all.skip(1), id);
        lemma_first_index_is(ids_of(rest), id);
        lemma_first_index_is(ids_of(left), id);
        if all[0].id != id {
            assert(ids_of(left).skip(1) =~= ids_of(rest));
        }
    } else {
        assert(ids_of(left).len() == 0);
    }
}

/// After a deletion that succeeds, no project has the id.
pub proof fn law_deleted_is_gone(all: Seq<ProjectView>, id: Seq<char>)
    requires
        deleted(all, id).error is None,
    ensures
        !is_among(ids_of(deleted(all, id).list), id),
{
    lemma_without_id(all, id);
}

} // verus!
