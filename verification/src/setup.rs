//! What a fresh installation starts with: the mappings of the data files,
//! a first user, a first project, the configuration keys and a first
//! collection.

use crate::collection::{
    collection_views, created as collection_created, customs_set, ids_of as collection_ids,
    structures_set, Collection, CollectionView,
};
use crate::config::{
    config_views, created as config_created, lowered_names, Config, ConfigView,
};
use crate::custom_structures::{
    created as custom_created, custom_views, structures_set as custom_structures_set,
    CustomStructure, CustomStructureView,
};
use crate::mappings::{created as mapping_created, has_id, mapping_views, Mapping, MappingView};
use crate::project::{
    created as project_created, ids_of as project_ids, project_views, Project, ProjectView,
};
use crate::structures::{
    and_then, created as structure_created, structure_views, Fields, Structure, StructureView,
};
use crate::text::{ends, failed, fine, is_among, lowercase, Outcome};
use crate::user::{created as user_created, lowered_usernames, user_views, Drawn, User, UserView};
use vstd::prelude::*;

verus! {

/// The list with a mapping for the id, where it had none and the mapping
/// can be created.
pub open spec fn with_mapping(all: Seq<MappingView>, id: Seq<char>, file_name: Seq<char>) -> Seq<
    MappingView,
> {
    if has_id(all, id) {
        all
    } else {
        mapping_created(all, id, file_name).list
    }
}

/// The list with the mappings of the five data files.
pub open spec fn with_default_mappings(all: Seq<MappingView>) -> Seq<MappingView> {
    with_mapping(
        with_mapping(
            with_mapping(
                with_mapping(
                    with_mapping(all, "users"@, "data/users.txt"@),
                    "projects"@,
                    "data/projects.txt"@,
                ),
                "configs"@,
                "data/configs.txt"@,
            ),
            "collections"@,
            "data/collections.txt"@,
        ),
        "encryption_key"@,
        "data/encryption_key.txt"@,
    )
}

/// Adds a mapping for the id where there is none.
fn ensure_mapping(all_mappings: &mut Vec<Mapping>, id: &str, file_name: &str)
    ensures
        mapping_views(final(all_mappings)@) == with_mapping(
            mapping_views(old(all_mappings)@),
            id@,
            file_name@,
        ),
{
    if !Mapping::exist(all_mappings, id) {
        let _ = Mapping::create(all_mappings, id, file_name);
    }
}

/// The mappings that an installation works with: those fetched, and one
/// for each data file that had none.
pub fn initialize_mappings(fetched_mappings: Vec<Mapping>) -> (all: Vec<Mapping>)
    ensures
        mapping_views(all@) == with_default_mappings(mapping_views(fetched_mappings@)),
{
    let mut fetched_mappings = fetched_mappings;
    ensure_mapping(&mut fetched_mappings, "users", "data/users.txt");
    ensure_mapping(&mut fetched_mappings, "projects", "data/projects.txt");
    ensure_mapping(&mut fetched_mappings, "configs", "data/configs.txt");
    ensure_mapping(&mut fetched_mappings, "collections", "data/collections.txt");
    ensure_mapping(&mut fetched_mappings, "encryption_key", "data/encryption_key.txt");
    fetched_mappings
}

/// What `initialize_users` leaves for given draws: the list as it was
/// where a user has the first username, else what the creation of the
/// first user leaves.
pub open spec fn with_first_user(all: Seq<UserView>, drawn: Drawn) -> Seq<UserView> {
    if is_among(lowered_usernames(all), lowercase("EdgeKing810"@)) {
        all
    } else {
        user_created(
            all,
            drawn,
            "Kishan"@,
            "Takoordyal"@,
            "EdgeKing810"@,
            "kishan@konnect.dev"@,
            "Test123*"@,
            0,
        ).list
    }
}

/// The users that an installation works with: those fetched, and the
/// first user where nobody has that username.
pub fn initialize_users(all_users: Vec<User>) -> (all: Vec<User>)
    ensures
        exists|drawn: Drawn|
            user_views(all@) == #[trigger] with_first_user(user_views(all_users@), drawn),
{
    let mut all_users = all_users;
    let ghost before = user_views(all_users@);
    if !User::exist_username(&all_users, "EdgeKing810") {
        let result = User::create(
            &mut all_users,
            "Kishan",
            "Takoordyal",
            "EdgeKing810",
            "kishan@konnect.dev",
            "Test123*",
            0,
        );
        proof {
            let drawn = choose|drawn: Drawn|
                ends(
                    result,
                    user_views(all_users@),
                    #[trigger] user_created(
                        before,
                        drawn,
                        "Kishan"@,
                        "Takoordyal"@,
                        "EdgeKing810"@,
                        "kishan@konnect.dev"@,
                        "Test123*"@,
                        0,
                    ),
                );
            assert(user_views(all_users@) == with_first_user(before, drawn));
        }
    } else {
        assert(user_views(all_users@) == with_first_user(
            before,
            Drawn { id: Seq::empty(), first_hash: Seq::empty(), hash: Seq::empty() },
        ));
    }
    all_users
}

/// What `initialize_projects` leaves: the list as it was where a project
/// has the first id, else what the creation of the first project leaves.
pub open spec fn with_first_project(all: Seq<ProjectView>) -> Seq<ProjectView> {
    if is_among(project_ids(all), "konnect"@) {
        all
    } else {
        project_created(
            all,
            "konnect"@,
            "Konnect - Social Media"@,
            "A next-gen social media."@,
            "/api/v2/konnect"@,
        ).list
    }
}

/// The projects that an installation works with: those fetched, and the
/// first project where none has its id.
pub fn initialize_projects(all_projects: Vec<Project>) -> (all: Vec<Project>)
    ensures
        project_views(all@) == with_first_project(project_views(all_projects@)),
{
    let mut all_projects = all_projects;
    if !Project::exist(&all_projects, "konnect") {
        let _ = Project::create(
            &mut all_projects,
            "konnect",
            "Konnect - Social Media",
            "A next-gen social media.",
            "/api/v2/konnect",
        );
    }
    all_projects
}

/// The list with a config for the key, where it had none: the key gets
/// the value `_empty`.
pub open spec fn with_key(all: Seq<ConfigView>, key: Seq<char>) -> Seq<ConfigView> {
    if is_among(lowered_names(all), lowercase(key)) {
        all
    } else {
        config_created(all, key, "_empty"@).list
    }
}

/// The list with a config for each of the keys, in their order.
pub open spec fn with_keys(all: Seq<ConfigView>, keys: Seq<Seq<char>>) -> Seq<ConfigView>
    decreases keys.len(),
{
    if keys.len() == 0 {
        all
    } else {
        with_key(with_keys(all, keys.drop_last()), keys.last())
    }
}

/// The keys that every installation has a config for.
pub open spec fn config_keys() -> Seq<Seq<char>> {
    seq![
        "ENV"@,
        "API_URL"@,
        "API_PORT"@,
        "API_PRE"@,
        "WS_PORT"@,
        "MONGO_URI"@,
        "DB_NAME"@,
        "JWT_EXPIRE"@,
        "SMTP_USERNAME"@,
        "SMTP_PASSWORD"@,
        "SMTP_HOST"@,
        "SMTP_PORT"@,
        "TOKEN_KEY"@,
        "ENCRYPT_KEY"@,
        "MISC_KEY"@,
        "USE_REDIS"@,
        "REDIS_HOST"@,
        "REDIS_PORT"@,
        "UPLOAD_SIZE"@,
        "SHOULD_INITIALIZE"@,
        "CORS_WHITELIST"@,
    ]
}

/// The configs that an installation works with: those fetched, and one
/// for each key that had none.
pub fn initialize_configs(all_configs: Vec<Config>) -> (all: Vec<Config>)
    ensures
        config_views(all@) == with_keys(config_views(all_configs@), config_keys()),
{
    let mut all_configs = all_configs;
    let config_keys_template: Vec<&str> = vec![
        "ENV",
        "API_URL",
        "API_PORT",
        "API_PRE",
        "WS_PORT",
        "MONGO_URI",
        "DB_NAME",
        "JWT_EXPIRE",
        "SMTP_USERNAME",
        "SMTP_PASSWORD",
        "SMTP_HOST",
        "SMTP_PORT",
        "TOKEN_KEY",
        "ENCRYPT_KEY",
        "MISC_KEY",
        "USE_REDIS",
        "REDIS_HOST",
        "REDIS_PORT",
        "UPLOAD_SIZE",
        "SHOULD_INITIALIZE",
        "CORS_WHITELIST",
    ];
    let ghost keys = Seq::new(
        config_keys_template@.len(),
        |index: int| config_keys_template@[index]@,
    );
    assert(keys =~= config_keys());
    let ghost before = config_views(all_configs@);
    let mut at: usize = 0;
    assert(keys.take(0) =~= Seq::empty());
    while at < config_keys_template.len()
        invariant
            at <= config_keys_template.len(),
            keys.len() == config_keys_template@.len(),
            forall|index: int|
                0 <= index < keys.len() ==> #[trigger] keys[index] == config_keys_template@[index]@,
            config_views(all_configs@) == with_keys(before, keys.take(at as int)),
        decreases config_keys_template.len() - at,
    {
        let key = config_keys_template[at];
        assert(keys[at as int] == key@);
        assert(keys.take(at + 1).drop_last() =~= keys.take(at as int));
        assert(keys.take(at + 1).last() == key@);
        if !Config::exist(&all_configs, key) {
            let _ = Config::create(&mut all_configs, key, "_empty");
        }
        at = at + 1;
    }
    assert(keys.take(keys.len() as int) =~= keys);
    all_configs
}

/// The fields of a structure without marks or pattern.
pub open spec fn plain_fields(
    name: Seq<char>,
    stype_txt: Seq<char>,
    default_val: Seq<char>,
    min: usize,
    max: usize,
    unique: bool,
    array: bool,
) -> Fields {
    Fields {
        name,
        stype_txt,
        default_val,
        min,
        max,
        encrypted: false,
        unique,
        regex_pattern: ""@,
        array,
    }
}

/// The structures of the first collection, created one after the other.
pub open spec fn post_structures() -> Outcome<StructureView> {
    let s1 = structure_created(
        Seq::empty(),
        "title"@,
        plain_fields("Title"@, "text"@, "test title"@, 5, 20, false, false),
    );
    let s2 = and_then(
        s1,
        |list: Seq<StructureView>|
            structure_created(
                list,
                "cover_image"@,
                plain_fields("Cover Image"@, "media"@, "https://test.image.com"@, 0, 200, false, false),
            ),
    );
    let s3 = and_then(
        s2,
        |list: Seq<StructureView>|
            structure_created(
                list,
                "content"@,
                plain_fields(
                    "Content"@,
                    "richtext"@,
                    "[ Content goes here ]"@,
                    30,
                    2000,
                    false,
                    false,
                ),
            ),
    );
    let s4 = and_then(
        s3,
        |list: Seq<StructureView>|
            structure_created(
                list,
                "views"@,
                plain_fields("Views"@, "number"@, "0"@, 0, 9999, false, false),
            ),
    );
    let s5 = and_then(
        s4,
        |list: Seq<StructureView>|
            structure_created(
                list,
                "comment"@,
                plain_fields("Comments"@, "comment"@, "0"@, 0, 9999, false, true),
            ),
    );
    and_then(
        s5,
        |list: Seq<StructureView>|
            structure_created(
                list,
                "published"@,
                plain_fields("Published"@, "boolean"@, "false"@, 0, 5, false, true),
            ),
    )
}

/// The structures of a comment, created one after the other.
pub open spec fn comment_structures() -> Outcome<StructureView> {
    let s1 = structure_created(
        Seq::empty(),
        "uid"@,
        plain_fields("UID"@, "uid"@, ""@, 5, 20, true, false),
    );
    and_then(
        s1,
        |list: Seq<StructureView>|
            structure_created(
                list,
                "value"@,
                plain_fields("Value"@, "text"@, ""@, 1, 100, false, false),
            ),
    )
}

/// The custom structures of the first collection: the comment with its
/// structures.
pub open spec fn post_customs() -> Outcome<CustomStructureView> {
    let inner = comment_structures();
    match inner.error {
        Some(message) => failed(Seq::empty(), message),
        None => {
            let made = custom_created(Seq::empty(), "comment"@, "comment"@);
            if made.error is Some {
                made
            } else {
                custom_structures_set(made.list, "comment"@, inner.list)
            }
        },
    }
}

/// What `initialize_collections` does to a list.
///
/// Where no collection has the id `posts`, one is created; then its
/// structures and custom structures are made and set. An error in the
/// creation of the collection is passed over; the first other step that
/// fails ends the work with its error and leaves the list as the steps
/// before it made it.
pub open spec fn with_first_collection(all: Seq<CollectionView>) -> Outcome<CollectionView> {
    if is_among(collection_ids(all), "posts"@) {
        fine(all)
    } else {
        let made = collection_created(
            all,
            "posts"@,
            "konnect"@,
            "Posts"@,
            "To store blog posts."@,
        ).list;
        match post_structures().error {
            Some(message) => failed(made, message),
            None => {
                let with_structures = structures_set(made, "posts"@, post_structures().list);
                if with_structures.error is Some {
                    with_structures
                } else {
                    match post_customs().error {
                        Some(message) => failed(with_structures.list, message),
                        None => customs_set(with_structures.list, "posts"@, post_customs().list),
                    }
                }
            },
        }
    }
}

/// Makes the structures of the first collection.
fn make_post_structures() -> (result: Result<Vec<Structure>, String>)
    ensures
        match post_structures().error {
            None => result matches Ok(list) && structure_views(list@) == post_structures().list,
            Some(message) => result matches Err(text) && text@ == message,
        },
{
    let mut all_structures: Vec<Structure> = Vec::new();
    assert(structure_views(all_structures@) =~= Seq::empty());
    if let Err(error) = Structure::create(
        &mut all_structures,
        "title",
        "Title",
        "text",
        "test title",
        5,
        20,
        false,
        false,
        "",
        false,
    ) {
        return Err(error);
    }
    if let Err(error) = Structure::create(
        &mut all_structures,
        "cover_image",
        "Cover Image",
        "media",
        "https://test.image.com",
        0,
        200,
        false,
        false,
        "",
        false,
    ) {
        return Err(error);
    }
    if let Err(error) = Structure::create(
        &mut all_structures,
        "content",
        "Content",
        "richtext",
        "[ Content goes here ]",
        30,
        2000,
        false,
        false,
        "",
        false,
    ) {
        return Err(error);
    }
    if let Err(error) = Structure::create(
        &mut all_structures,
        "views",
        "Views",
        "number",
        "0",
        0,
        9999,
        false,
        false,
        "",
        false,
    ) {
        return Err(error);
    }
    if let Err(error) = Structure::create(
        &mut all_structures,
        "comment",
        "Comments",
        "comment",
        "0",
        0,
        9999,
        false,
        false,
        "",
        true,
    ) {
        return Err(error);
    }
    if let Err(error) = Structure::create(
        &mut all_structures,
        "published",
        "Published",
        "boolean",
        "false",
        0,
        5,
        false,
        false,
        "",
        true,
    ) {
        return Err(error);
    }
    Ok(all_structures)
}

/// Makes the custom structures of the first collection.
fn make_post_customs() -> (result: Result<Vec<CustomStructure>, String>)
    ensures
        match post_customs().error {
            None => result matches Ok(list) && custom_views(list@) == post_customs().list,
            Some(message) => result matches Err(text) && text@ == message,
        },
{
    let mut all_custom_structures: Vec<CustomStructure> = Vec::new();
    let mut tmp_structures: Vec<Structure> = Vec::new();
    assert(structure_views(tmp_structures@) =~= Seq::empty());
    assert(custom_views(all_custom_structures@) =~= Seq::empty());
    if let Err(error) = Structure::create(
        &mut tmp_structures,
        "uid",
        "UID",
        "uid",
        "",
        5,
        20,
        false,
        true,
        "",
        false,
    ) {
        return Err(error);
    }
    if let Err(error) = Structure::create(
        &mut tmp_structures,
        "value",
        "Value",
        "text",
        "",
        1,
        100,
        false,
        false,
        "",
        false,
    ) {
        return Err(error);
    }
    if let Err(error) = CustomStructure::create(&mut all_custom_structures, "comment", "comment") {
        return Err(error);
    }
    let id = String::from_str("comment");
    if let Err(error) = CustomStructure::set_structures(
        &mut all_custom_structures,
        &id,
        tmp_structures,
    ) {
        return Err(error);
    }
    Ok(all_custom_structures)
}

/// Gives an installation its first collection; see
/// `with_first_collection`.
pub fn initialize_collections(all_collections: &mut Vec<Collection>) -> (result: Result<(), String>)
    ensures
        ends(
            result,
            collection_views(final(all_collections)@),
            with_first_collection(collection_views(old(all_collections)@)),
        ),
{
    if Collection::exist(all_collections, "posts") {
        return Ok(());
    }
    let _ = Collection::create(
        all_collections,
        "posts",
        "konnect",
        "Posts",
        "To store blog posts.",
    );
    let id = String::from_str("posts");
    let all_structures = match make_post_structures() {
        Ok(list) => list,
        Err(error) => {
            return Err(error);
        },
    };
    if let Err(error) = Collection::set_structures(all_collections, &id, all_structures) {
        return Err(error);
    }
    let all_custom_structures = match make_post_customs() {
        Ok(list) => list,
        Err(error) => {
            return Err(error);
        },
    };
    Collection::set_custom_structures(all_collections, &id, all_custom_structures)
}

/// The files that a reset removes: the mappings file, then the file of
/// each mapping.
pub open spec fn files_of(all: Seq<MappingView>) -> Seq<Seq<char>> {
    seq!["data/mappings.txt"@] + Seq::new(all.len(), |index: int| all[index].file_name)
}

/// The views of a list of texts.
pub open spec fn text_views(texts: Seq<String>) -> Seq<Seq<char>> {
    Seq::new(texts.len(), |index: int| texts[index]@)
}

/// The files to remove for a reset of the database.
pub fn reset_db(all_mappings: Vec<Mapping>) -> (files: Vec<String>)
    ensures
        text_views(files@) == files_of(mapping_views(all_mappings@)),
{
    let ghost all = mapping_views(all_mappings@);
    let mut files: Vec<String> = Vec::new();
    files.push(String::from_str("data/mappings.txt"));
    let mut at: usize = 0;
    while at < all_mappings.len()
        invariant
            at <= all_mappings.len(),
            all == mapping_views(all_mappings@),
            files@.len() == at + 1,
            files@[0]@ == "data/mappings.txt"@,
            forall|index: int| 0 <= index < at ==> #[trigger] files@[index + 1]@ == all[index].file_name,
        decreases all_mappings.len() - at,
    {
        files.push(all_mappings[at].get_file_name());
        at = at + 1;
    }
    assert forall|index: int| 0 <= index < files@.len() implies text_views(files@)[index]
        == files_of(all)[index] by {
        if index > 0 {
            assert(files@[(index - 1) + 1]@ == all[index - 1].file_name);
        }
    }
    assert(text_views(files@) =~= files_of(all));
    files
}

} // verus!
