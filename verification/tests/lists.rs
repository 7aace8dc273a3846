use kinesis_db::collection::{
    get_collections_from_str, read_all_collections, read_collections_from_str, Collection,
};
use kinesis_db::config::{get_configs_from_str, read_all_configs, read_configs_from_str, Config};
use kinesis_db::custom_structures::{
    get_custom_structures_from_str, put_custom, read_custom_structures_from_str, rejoin,
    turn_custom_structures_to_str, CustomStructure,
};
use kinesis_db::encryption::{
    open_content, read_content, read_encryption_key, seal_content, EncryptionKey,
};
use kinesis_db::mappings::{
    get_file_name, get_mappings_from_str, read_all_mappings, read_mappings_from_str,
    turn_mappings_to_str, Mapping,
};
use kinesis_db::project::{read_all_projects, turn_projects_to_str, Project};
use kinesis_db::setup::{
    initialize_collections, initialize_configs, initialize_mappings, initialize_projects,
    initialize_users,
};
use kinesis_db::structures::{
    add_structures_of, get_structures_from_str, put_structure, read_structure, read_structures,
    read_structures_from_str, try_add_structure, turn_structures_to_str, Structure, Type,
};
use kinesis_db::text::{
    chars_of, check_length, contains_text, has_none_of, holds, is_alnum_or, joined,
    parse_unsigned, push_decimal, push_line, same_text, split_keeping, split_on, string_of, trim,
};
use kinesis_db::user::{check_password, read_all_users, turn_users_to_str, Role, User};

fn chars(text: &str) -> Vec<char> {
    text.chars().collect()
}

fn texts(parts: &Vec<Vec<char>>) -> Vec<String> {
    parts.iter().map(|part| part.iter().collect()).collect()
}

fn err(message: &str) -> Result<(), String> {
    Err(String::from(message))
}

fn title() -> Structure {
    let mut list = Vec::new();
    Structure::create(&mut list, "title", "Title", "text", "test title", 5, 20, false, false, "", false)
        .unwrap();
    list.remove(0)
}

const TITLE_LINE: &str = "title|Title|text|test title|5|20|false|false||false";

#[test]
fn characters_and_strings_convert_both_ways() {
    assert_eq!(chars_of("héllo"), vec!['h', 'é', 'l', 'l', 'o']);
    assert_eq!(chars_of(""), Vec::<char>::new());
    assert_eq!(string_of(&vec!['h', 'é', 'y']), "héy");
    assert_eq!(string_of(&vec![]), "");
}

#[test]
fn split_cuts_at_every_separator() {
    assert_eq!(texts(&split_on(&chars("a$b$$c"), '$')), vec!["a", "b", "", "c"]);
    assert_eq!(texts(&split_on(&chars(""), '$')), vec![""]);
    assert_eq!(texts(&split_on(&chars("$"), '$')), vec!["", ""]);
    assert_eq!(texts(&split_on(&chars("abc"), '$')), vec!["abc"]);
    assert_eq!(texts(&split_on(&chars("a|b|"), '|')), vec!["a", "b", ""]);
}

#[test]
fn split_keeping_drops_the_short_pieces() {
    assert_eq!(texts(&split_keeping(&chars("$a$$bc$"), '$', 1)), vec!["a", "bc"]);
    assert_eq!(texts(&split_keeping(&chars("ab\nabc\n\nabcd"), '\n', 3)), vec!["abc", "abcd"]);
    assert_eq!(texts(&split_keeping(&chars(""), '\n', 3)), Vec::<String>::new());
    assert_eq!(texts(&split_keeping(&chars("ééé\ne"), '\n', 3)), vec!["ééé"]);
    assert_eq!(texts(&split_keeping(&chars("a,,b"), ',', 0)), vec!["a", "", "b"]);
}

#[test]
fn unsigned_numbers_are_read_as_the_standard_parser_reads_them() {
    for text in ["0", "7", "+7", "007", "4294967295", "4294967296", "", "+", "-1", "1 ", " 1", "1_0", "12a", "++1", "99999999999999999999999"] {
        let expected = text.parse::<u32>().ok().map(|value| value as u64);
        assert_eq!(parse_unsigned(&chars(text), u32::MAX as u64), expected, "{:?}", text);
    }
    for text in ["18446744073709551615", "18446744073709551616", "000000000000000000000018446744073709551615"] {
        let expected = text.parse::<u64>().ok();
        assert_eq!(parse_unsigned(&chars(text), u64::MAX), expected, "{:?}", text);
    }
    assert_eq!(parse_unsigned(&chars("10"), 9), None);
    assert_eq!(parse_unsigned(&chars("9"), 9), Some(9));
}

#[test]
fn numbers_are_written_without_leading_zeros() {
    for number in [0u64, 5, 9, 10, 99, 100, 12345, u64::MAX] {
        let mut out = vec!['x'];
        push_decimal(&mut out, number);
        let text: String = out.iter().collect();
        assert_eq!(text, format!("x{}", number));
    }
}

#[test]
fn trim_takes_the_white_space_off_both_ends() {
    for text in ["", " ", "a", " a", "a ", "  a b  ", "\t\na\r\n", "\u{a0}a\u{3000}", " é ", "   "] {
        assert_eq!(trim(&chars(text)), text.trim(), "{:?}", text);
    }
}

#[test]
fn character_rules() {
    assert!(is_alnum_or(&chars("abcXYZ019_-"), &vec!['_', '-']));
    assert!(!is_alnum_or(&chars("abc def"), &vec!['_', '-']));
    assert!(!is_alnum_or(&chars("é"), &vec![]));
    assert!(is_alnum_or(&chars(""), &vec![]));
    assert!(has_none_of(&chars("plain text."), &vec![';', '@', '>', '#']));
    assert!(!has_none_of(&chars("a>b"), &vec![';', '@', '>', '#']));
    assert!(holds(&chars("a|b"), '|'));
    assert!(!holds(&chars("ab"), '|'));
    assert!(contains_text(&chars("users.txt"), &chars(".txt")));
    assert!(contains_text(&chars(".txt.old"), &chars(".txt")));
    assert!(!contains_text(&chars("users.tx"), &chars(".txt")));
    assert!(contains_text(&chars("abc"), &chars("")));
    assert!(!contains_text(&chars(""), &chars("a")));
}

#[test]
fn texts_are_put_together() {
    assert_eq!(joined("a", "=", "b"), "a=b");
    assert_eq!(joined("", "", ""), "");
    let mut text = Vec::new();
    push_line(&mut text, '\n', "ab");
    push_line(&mut text, '\n', "cd");
    assert_eq!(string_of(&text), "ab\ncd");
    let mut text = vec!['a'];
    push_line(&mut text, '\n', "b");
    assert_eq!(string_of(&text), "ab");
    let mut text = Vec::new();
    push_line(&mut text, '%', "");
    push_line(&mut text, '%', "x");
    push_line(&mut text, '%', "y");
    push_line(&mut text, '%', "z");
    assert_eq!(string_of(&text), "xy%z");
}

#[test]
fn lengths_are_counted_in_bytes() {
    assert_eq!(check_length(&String::from("abc"), 1, 3, "short", "long"), None);
    assert_eq!(check_length(&String::from(""), 1, 3, "short", "long"), Some(String::from("short")));
    assert_eq!(check_length(&String::from("abcd"), 1, 3, "short", "long"), Some(String::from("long")));
    assert_eq!(check_length(&String::from("éé"), 1, 3, "short", "long"), Some(String::from("long")));
}

#[test]
fn mapping_lines() {
    let mapping = Mapping::from_string(" users = data/users.txt ");
    assert_eq!(mapping.get_file_name(), "data/users.txt");
    assert_eq!(Mapping::to_string(mapping), "users=data/users.txt");
    let mapping = Mapping::from_string("a=b=c");
    assert_eq!(Mapping::to_string(mapping), "a=b");
    let mapping = Mapping::create_no_check(" id ", "\tfile\n");
    assert_eq!(Mapping::to_string(mapping), "id=file");
}

#[test]
fn mappings_are_read_from_the_lines_of_three_characters() {
    let all = read_all_mappings("users=users.txt\n\nab\nx=y\nprojects = projects.txt ").unwrap();
    assert_eq!(turn_mappings_to_str(all), "users=users.txt\nx=y\nprojects=projects.txt");
    assert!(read_all_mappings("users=users.txt\nbroken").is_none());
    assert!(read_all_mappings("ab").unwrap().is_empty());
    assert!(read_mappings_from_str("ab").is_none());
    assert_eq!(get_mappings_from_str("a=b\nc=d").len(), 2);
    assert_eq!(read_mappings_from_str("").map(|all| all.len()), None);
}

#[test]
fn mapping_lookup_and_errors() {
    let mut all = Vec::new();
    assert_eq!(Mapping::create(&mut all, "users", "users.txt"), Ok(()));
    assert_eq!(Mapping::create(&mut all, "my_projects", "projects.txt"), Ok(()));
    assert!(Mapping::exist(&all, "users"));
    assert!(!Mapping::exist(&all, "Users"));
    assert_eq!(get_file_name("my_projects", &all), Ok(String::from("projects.txt")));
    assert_eq!(get_file_name("nope", &all), Err(String::from("Error: No mapping with this id")));
    assert_eq!(
        Mapping::create(&mut all, "other", "users.txt"),
        err("A similar Mapping already exists (other)")
    );
    assert_eq!(
        Mapping::create(&mut all, "oth-er", "other.txt"),
        err("Invalid character (perhaps a symbol?) found in id or file_name (oth-er)")
    );
    assert_eq!(
        Mapping::update(&mut all, "my_projects", "new.txt"),
        err("Invalid character (perhaps a symbol?) found in id or file_name (my_projects)")
    );
    assert_eq!(
        Mapping::update(&mut all, "users", "projects.txt"),
        err("Another Mapping is already using this file_name (users, projects.txt)")
    );
    assert_eq!(
        Mapping::update(&mut all, "nobody", "nobody.txt"),
        err("No Mapping with this id found (nobody)")
    );
    assert_eq!(Mapping::remove(&mut all, "nobody"), err("No Mapping with this id found (nobody)"));
    assert_eq!(Mapping::update(&mut all, "users", "people.txt"), Ok(()));
    assert_eq!(Mapping::remove(&mut all, "my_projects"), Ok(()));
    assert_eq!(turn_mappings_to_str(all), "users=people.txt");
}

#[test]
fn remove_takes_every_mapping_of_the_id() {
    let mut all = get_mappings_from_str("a=1\nb=2\na=3\nc=4\na=5");
    assert_eq!(Mapping::remove(&mut all, "a"), Ok(()));
    assert_eq!(turn_mappings_to_str(all), "b=2\nc=4");
    let mut all = get_mappings_from_str("a=1\nb=2\na=3");
    assert_eq!(Mapping::update(&mut all, "a", "z.txt"), Ok(()));
    assert_eq!(turn_mappings_to_str(all), "a=z.txt\nb=2\na=z.txt");
}

#[test]
fn config_names_are_compared_without_case() {
    let mut all = Vec::new();
    assert_eq!(Config::create(&mut all, "Api_Url", " http://x "), Ok(()));
    assert!(Config::exist(&all, "API_URL"));
    assert!(Config::exist(&all, "api_url"));
    assert!(!Config::exist(&all, "api-url"));
    assert_eq!(all[0].name, "Api_Url");
    assert_eq!(all[0].value, "http://x");
    assert_eq!(
        Config::create(&mut all, "API_URL", "y"),
        err("Error: A config with that name already exists (Api_Url)")
    );
}

#[test]
fn config_lengths_and_errors() {
    let mut all = Vec::new();
    assert_eq!(
        Config::create(&mut all, "", "value"),
        err("Error: name does not contain enough characters")
    );
    assert_eq!(
        Config::create(&mut all, &"n".repeat(101), "value"),
        err("Error: name contains too many characters")
    );
    assert_eq!(Config::create(&mut all, &"n".repeat(100), "value"), Ok(()));
    assert_eq!(
        Config::create(&mut all, "empty", "  "),
        err("Error: value does not contain enough characters")
    );
    assert_eq!(
        Config::create(&mut all, "long", &"v".repeat(201)),
        err("Error: value contains too many characters")
    );
    assert_eq!(all.len(), 1);
    assert_eq!(Config::create(&mut all, "long", &"v".repeat(200)), Ok(()));
    assert_eq!(Config::update_value(&mut all, "none", "v"), err("Error: Config not found"));
    assert_eq!(Config::update_value(&mut all, "LONG", "v"), err("Error: Config not found"));
    assert_eq!(Config::delete(&mut all, "none"), err("Error: Config not found"));
    assert_eq!(Config::delete(&mut all, "long"), Ok(()));
    assert_eq!(all.len(), 1);
}

#[test]
fn config_lines() {
    let config = Config::from_string(" name | value |rest");
    assert_eq!(config.name, "name");
    assert_eq!(config.value, "value");
    assert_eq!(Config::to_string(config), "name|value");
    let config = Config::create_no_check(" a ", " b ");
    assert_eq!(Config::to_string(config), "a|b");
    let all = read_all_configs("a|1\nx\nb|2\n").unwrap();
    assert_eq!(kinesis_db::config::turn_configs_to_str(all), "a|1\nb|2");
    assert!(read_all_configs("a|1\nbroken").is_none());
    assert!(read_configs_from_str("a|1\n").is_none());
    assert_eq!(get_configs_from_str("a|1\nb|2").len(), 2);
    let blank = vec![Config { name: String::new(), value: String::new() }, Config::create_no_check("a", "b")];
    assert_eq!(kinesis_db::config::turn_configs_to_str(blank), "|a|b");
}

#[test]
fn project_rules() {
    let mut all = Vec::new();
    assert_eq!(Project::create(&mut all, "one", "One", "", "/one"), Ok(()));
    assert!(Project::exist(&all, "one"));
    assert!(!Project::exist(&all, "test;"));
    let id = String::from("one");
    let none = String::from("none");
    assert_eq!(Project::update_id(&mut all, &id, ""), err("Error: id does not contain enough characters"));
    assert_eq!(
        Project::update_id(&mut all, &id, &"i".repeat(101)),
        err("Error: id contains too many characters")
    );
    assert_eq!(Project::update_id(&mut all, &none, "two"), err("Error: Project not found"));
    assert_eq!(Project::update_name(&mut all, &none, "Two"), err("Error: Project not found"));
    assert_eq!(
        Project::update_name(&mut all, &id, " "),
        err("Error: name does not contain enough characters")
    );
    assert_eq!(
        Project::update_name(&mut all, &id, &"n".repeat(101)),
        err("Error: name contains too many characters")
    );
    assert_eq!(
        Project::update_description(&mut all, &id, &"d".repeat(401)),
        err("Error: description contains too many characters")
    );
    assert_eq!(Project::update_description(&mut all, &id, &"d".repeat(400)), Ok(()));
    assert_eq!(Project::update_description(&mut all, &none, "d"), err("Error: Project not found"));
    assert_eq!(
        Project::update_api_path(&mut all, &id, ""),
        err("Error: api_path does not contain enough characters")
    );
    assert_eq!(
        Project::update_api_path(&mut all, &id, &"p".repeat(51)),
        err("Error: api_path contains too many characters")
    );
    assert_eq!(Project::update_api_path(&mut all, &none, "/two"), err("Error: Project not found"));
    assert_eq!(Project::delete(&mut all, &none), err("Error: Project not found"));
    assert_eq!(Project::delete(&mut all, &id), Ok(()));
    assert!(all.is_empty());
}

#[test]
fn failed_creation_leaves_no_project_behind() {
    let mut all = Vec::new();
    assert_eq!(
        Project::create(&mut all, "one", "One!", "", "/one"),
        err("Error: name contains an invalid character")
    );
    assert!(all.is_empty());
    assert_eq!(
        Project::create(&mut all, "bad id", "One", "", "/one"),
        err("Error: new_id contains an invalid character")
    );
    assert!(all.is_empty());
}

#[test]
fn project_lines() {
    let all = read_all_projects("a;A;first;/a\nb;B;second;/b;more\nxy").unwrap();
    assert_eq!(turn_projects_to_str(all.clone()), "a;A;first;/a\nb;B;second;/b");
    assert_eq!(Project::to_string(all[0].clone()), "a;A;first;/a");
    assert!(read_all_projects("a;A;first").is_none());
    let project = Project::create_no_check(" a", "b ", "c", "d");
    assert_eq!(Project::to_string(project), " a;b ;c;d");
}

#[test]
fn structure_lines() {
    assert_eq!(Structure::to_string(title()), TITLE_LINE);
    let read = Structure::from_string(TITLE_LINE).unwrap();
    assert_eq!(Structure::to_string(read), TITLE_LINE);
    let read = Structure::from_string("uid|UID|uid||5|20|true|true|^a$|true").unwrap();
    assert_eq!(Structure::to_string(read), "uid|UID|uid||5|20|true|true|^a$|true");
    let read = Structure::from_string("f|F|bool|x|0|1|yes|TRUE|p|1|more").unwrap();
    assert_eq!(Structure::to_string(read), "f|F|bool|x|0|1|false|false|p|false");
    assert_eq!(
        Structure::from_string("alone").unwrap_err(),
        "Error: Wrong format for Structure data"
    );
    assert_eq!(
        Structure::from_string("a|A|text|d|x|3").unwrap_err(),
        "Error: Wrong format for Structure data"
    );
    assert_eq!(
        Structure::from_string("a|A|text|d|1|-3").unwrap_err(),
        "Error: Wrong format for Structure data"
    );
    assert!(Structure::try_from_string("a|A|text").is_none());
    assert!(Structure::try_from_string("a|A|text|d|1").is_none());
    assert!(Structure::try_from_string("a|A|text|d|1|2|true|true|p").is_none());
    assert!(Structure::try_from_string("bad id|A|text|d|1|2|true|true|p|true").is_none());
    assert!(Structure::try_from_string(TITLE_LINE).unwrap().is_ok());
}

#[test]
fn structure_kinds() {
    for name in ["text", "email", "password", "richtext", "number", "enum", "date", "media", "bool", "uid", "json", "boolean", "comment", ""] {
        assert_eq!(Type::from_text(name).text(), name);
    }
    assert!(matches!(Type::from_text("bool"), Type::BOOLEAN));
    assert!(matches!(Type::from_text("boolean"), Type::CUSTOM(_)));
    assert!(matches!(Type::from_text("text"), Type::TEXT));
    assert!(matches!(Type::from_text("Text"), Type::CUSTOM(_)));
    assert!(matches!(Type::default(), Type::TEXT));
    assert!(matches!(Type::from_text("json").copy(), Type::JSON));
}

#[test]
fn structure_updates() {
    let mut all = vec![title()];
    let id = String::from("title");
    let none = String::from("none");
    assert!(Structure::exist(&all, "title"));
    assert!(!Structure::exist(&all, "none"));
    assert_eq!(Structure::update_min(&mut all, &id, 1), Ok(()));
    assert_eq!(Structure::update_max(&mut all, &id, 99), Ok(()));
    assert_eq!(Structure::update_encrypted(&mut all, &id, true), Ok(()));
    assert_eq!(Structure::update_unique(&mut all, &id, true), Ok(()));
    assert_eq!(Structure::update_array(&mut all, &id, true), Ok(()));
    assert_eq!(Structure::update_regex(&mut all, &id, " ^a$ "), Ok(()));
    assert_eq!(Structure::update_default(&mut all, &id, " d "), Ok(()));
    assert_eq!(Structure::update_type(&mut all, &id, "email"), Ok(()));
    assert_eq!(Structure::update_name(&mut all, &id, " New Name "), Ok(()));
    assert_eq!(Structure::update_id(&mut all, &id, "heading"), Ok(()));
    assert_eq!(all[0].id, "heading");
    assert_eq!(all[0].id_text(), "heading");
    assert_eq!(Structure::to_string(all[0].copy()), "heading|New Name|email|d|1|99|true|true|^a$|true");
    for result in [
        Structure::update_min(&mut all, &none, 1),
        Structure::update_max(&mut all, &none, 1),
        Structure::update_encrypted(&mut all, &none, true),
        Structure::update_unique(&mut all, &none, true),
        Structure::update_array(&mut all, &none, true),
        Structure::update_regex(&mut all, &none, ""),
        Structure::update_default(&mut all, &none, ""),
        Structure::update_type(&mut all, &none, "text"),
        Structure::update_name(&mut all, &none, "Name"),
        Structure::delete(&mut all, &none),
    ] {
        assert_eq!(result, err("Error: Structure not found"));
    }
    assert_eq!(
        Structure::update_id(&mut all, &none, ""),
        err("Error: new_id does not contain enough characters")
    );
    assert_eq!(
        Structure::update_id(&mut all, &none, &"i".repeat(101)),
        err("Error: new_id contains too many characters")
    );
    assert_eq!(
        Structure::update_name(&mut all, &none, ""),
        err("Error: name does not contain enough characters")
    );
    assert_eq!(
        Structure::update_name(&mut all, &none, &"n".repeat(101)),
        err("Error: name contains too many characters")
    );
    assert_eq!(Structure::delete(&mut all, &String::from("heading")), Ok(()));
    assert!(all.is_empty());
}

#[test]
fn structures_in_a_text() {
    let text = format!("{}%short%uid|UID|uid||5|20|false|true||false", TITLE_LINE);
    let all = get_structures_from_str(&text);
    assert_eq!(all.len(), 2);
    assert_eq!(Structure::stringify(&all), format!("{}%uid|UID|uid||5|20|false|true||false", TITLE_LINE));
    assert_eq!(turn_structures_to_str(Structure::copy_all(&all)), Structure::stringify(&all));
    assert!(read_structures_from_str("a|b|c").is_none());
    assert_eq!(read_structures_from_str("").unwrap().len(), 0);
    let mut list = Vec::new();
    add_structures_of(&chars(&format!("{}%{}%x", TITLE_LINE, TITLE_LINE)), &mut list);
    assert_eq!(list.len(), 1);
    let mut list = Vec::new();
    assert!(!read_structures(&chars("a|b|c"), &mut list));
    assert!(read_structures(&chars(TITLE_LINE), &mut list));
    assert_eq!(list.len(), 1);
    let pieces = split_on(&chars(TITLE_LINE), '|');
    assert_eq!(read_structure(&pieces, &mut list), Some(true));
    assert_eq!(list.len(), 1);
    assert_eq!(read_structure(&vec![chars("x")], &mut list), Some(false));
    assert_eq!(read_structure(&split_on(&chars("a|b"), '|'), &mut list), None);
    assert!(!try_add_structure(&vec![], &mut list));
    assert!(!try_add_structure(&vec!["a", "b", "c", "d", "x"], &mut list));
    let mut fresh = Vec::new();
    assert!(try_add_structure(&TITLE_LINE.split('|').collect(), &mut fresh));
    assert_eq!(Structure::stringify(&fresh), TITLE_LINE);
}

#[test]
fn a_structure_takes_the_place_of_those_of_its_id() {
    let mut all = get_structures_from_str(&format!("{}%uid|UID|uid||5|20|false|true||false", TITLE_LINE));
    let mut changed = title();
    changed = {
        let mut list = vec![changed];
        Structure::update_name(&mut list, &String::from("title"), "Heading").unwrap();
        list.remove(0)
    };
    put_structure(&mut all, changed.copy());
    assert_eq!(
        Structure::stringify(&all),
        "title|Heading|text|test title|5|20|false|false||false%uid|UID|uid||5|20|false|true||false"
    );
    let mut other = Vec::new();
    put_structure(&mut other, changed);
    assert_eq!(other.len(), 1);
}

#[test]
fn custom_structure_lines() {
    let mut all = Vec::new();
    CustomStructure::create(&mut all, "comment", "Comment").unwrap();
    let id = String::from("comment");
    assert_eq!(CustomStructure::add_structure(&mut all, &id, title()), Ok(()));
    assert_eq!(CustomStructure::add_structure(&mut all, &id, title()), Ok(()));
    assert_eq!(
        CustomStructure::to_string(all[0].copy()),
        format!("comment|Comment|{}%{}", TITLE_LINE, TITLE_LINE)
    );
    assert_eq!(CustomStructure::remove_structure(&mut all, &id, &String::from("title")), Ok(()));
    assert_eq!(CustomStructure::to_string(all[0].copy()), "comment|Comment|");
    assert_eq!(
        CustomStructure::remove_structure(&mut all, &id, &String::from("title")),
        err("Error: Structure not found")
    );
    assert_eq!(CustomStructure::update_structure(&mut all, &id, title()), Ok(()));
    assert_eq!(CustomStructure::update_structure(&mut all, &id, title()), Ok(()));
    assert_eq!(CustomStructure::stringify(&all), format!("comment|Comment|{}", TITLE_LINE));
    assert_eq!(CustomStructure::set_structures(&mut all, &id, vec![]), Ok(()));
    assert_eq!(turn_custom_structures_to_str(CustomStructure::copy_all(&all)), "comment|Comment|");
    assert_eq!(all[0].id_text(), "comment");
    let none = String::from("none");
    for result in [
        CustomStructure::add_structure(&mut all, &none, title()),
        CustomStructure::update_structure(&mut all, &none, title()),
        CustomStructure::set_structures(&mut all, &none, vec![]),
        CustomStructure::remove_structure(&mut all, &none, &none),
        CustomStructure::update_name(&mut all, &none, "Name"),
        CustomStructure::delete(&mut all, &none),
    ] {
        assert_eq!(result, err("Error: Custom Structure not found"));
    }
    assert_eq!(CustomStructure::update_id(&mut all, &id, "note"), Ok(()));
    assert_eq!(CustomStructure::update_name(&mut all, &String::from("note"), " A Note "), Ok(()));
    assert!(CustomStructure::exist(&all, "note"));
    assert!(!CustomStructure::exist(&all, "comment"));
    assert_eq!(CustomStructure::stringify(&all), "note|A Note|");
    assert_eq!(CustomStructure::delete(&mut all, &String::from("note")), Ok(()));
    assert!(all.is_empty());
}

#[test]
fn custom_structures_are_read_without_their_structures() {
    let read = CustomStructure::from_string(&format!("comment|Comment|{}", TITLE_LINE)).unwrap();
    assert_eq!(CustomStructure::to_string(read), "comment|Comment|");
    assert_eq!(
        CustomStructure::from_string("comment|Comment").unwrap_err(),
        "Error: Wrong format for Custom Structure data"
    );
    assert_eq!(
        CustomStructure::from_string("com ment|Comment|").unwrap_err(),
        "Error: new_id contains an invalid character"
    );
    assert!(CustomStructure::try_from_string("comment|Comment|a|b").is_none());
    assert!(CustomStructure::try_from_string("comment|Comment|").unwrap().is_ok());
    let all = get_custom_structures_from_str("a|A|#bad#b|B|x");
    assert_eq!(CustomStructure::stringify(&all), "a|A|#b|B|");
    assert!(read_custom_structures_from_str("a|A|b|c").is_none());
    assert_eq!(string_of(&rejoin(&split_on(&chars("a|b|c|d|e"), '|'))), "c|d|e");
    assert_eq!(string_of(&rejoin(&split_on(&chars("a|b"), '|'))), "");
    assert_eq!(string_of(&rejoin(&split_on(&chars("a|b|"), '|'))), "");
    let mut list = get_custom_structures_from_str("a|A|#b|B|");
    let mut fresh = Vec::new();
    CustomStructure::create(&mut fresh, "a", "Again").unwrap();
    put_custom(&mut list, fresh.remove(0));
    assert_eq!(CustomStructure::stringify(&list), "a|Again|#b|B|");
}

#[test]
fn collection_lines() {
    let line = format!(
        "posts;konnect;Posts;To store blog posts.>{}>comment|comment|uid|UID|uid||5|20|false|true||false",
        TITLE_LINE
    );
    let mut all = Vec::new();
    assert_eq!(Collection::from_string(&mut all, &line), "");
    assert_eq!(all.len(), 1);
    assert_eq!(Collection::to_string(all[0].copy()), line);
    assert_eq!(Collection::from_string(&mut all, &line), "Error: id is already in use");
    assert_eq!(all.len(), 1);
    assert_eq!(Collection::try_from_string(&mut all, "a;b;c"), None);
    assert_eq!(Collection::try_from_string(&mut all, "a;b;c;d"), None);
    assert_eq!(
        Collection::try_from_string(&mut all, "a;b;c;d>x>y"),
        Some(String::from("Error: id is already in use"))
    );
    assert_eq!(Collection::to_string(all[1].copy()), "a;b;c;d>>");
    assert_eq!(Collection::try_from_string(&mut all, "a2;b;c;d>x>y"), Some(String::new()));
    assert_eq!(Collection::to_string(all[2].copy()), "a2;b;c;d>>");
    assert_eq!(
        Collection::try_from_string(&mut all, "b;b;c;d>x>bad id|B|"),
        Some(String::from("Error: new_id contains an invalid character"))
    );
    assert_eq!(Collection::to_string(all[3].copy()), "b;b;c;d>>");
    assert_eq!(Collection::try_from_string(&mut all, "c;b;c;d>p|q>"), None);
    assert_eq!(
        Collection::try_from_string(&mut all, "d;b;c;d ; e>>"),
        Some(String::new())
    );
    assert_eq!(all.len(), 6);
}

#[test]
fn collections_in_a_text() {
    let text = "a;p;A;first>>\nxy\nb;p;B;second>>\na;p;A;again>>";
    let all = read_all_collections(text).unwrap();
    assert_eq!(kinesis_db::collection::turn_collections_to_str(all), "a;p;A;first>>\nb;p;B;second>>");
    assert!(read_all_collections("a;p;A").is_none());
    assert!(read_collections_from_str(text).is_none());
    assert_eq!(get_collections_from_str("a;p;A;first>>\nb;p;B;second>>").len(), 2);
    assert_eq!(kinesis_db::collection::fetch_all_collections(text).len(), 2);
}

#[test]
fn collection_updates() {
    let mut all = Vec::new();
    Collection::create(&mut all, "posts", "konnect", "Posts", "To store blog posts.").unwrap();
    let id = String::from("posts");
    let none = String::from("none");
    let mut customs = Vec::new();
    CustomStructure::create(&mut customs, "comment", "Comment").unwrap();
    assert_eq!(Collection::add_structure(&mut all, &id, title()), Ok(()));
    assert_eq!(Collection::update_structure(&mut all, &id, title()), Ok(()));
    assert_eq!(Collection::add_custom_structure(&mut all, &id, customs[0].copy()), Ok(()));
    assert_eq!(Collection::update_custom_structure(&mut all, &id, customs[0].copy()), Ok(()));
    assert_eq!(
        Collection::to_string(all[0].copy()),
        format!("posts;konnect;Posts;To store blog posts.>{}>comment|Comment|", TITLE_LINE)
    );
    assert_eq!(Collection::remove_structure(&mut all, &id, &String::from("title")), Ok(()));
    assert_eq!(
        Collection::remove_structure(&mut all, &id, &String::from("title")),
        err("Error: Structure not found")
    );
    assert_eq!(Collection::remove_custom_structure(&mut all, &id, &String::from("comment")), Ok(()));
    assert_eq!(
        Collection::remove_custom_structure(&mut all, &id, &String::from("comment")),
        err("Error: Custom Structure not found")
    );
    for result in [
        Collection::add_structure(&mut all, &none, title()),
        Collection::update_structure(&mut all, &none, title()),
        Collection::add_custom_structure(&mut all, &none, customs[0].copy()),
        Collection::update_custom_structure(&mut all, &none, customs[0].copy()),
        Collection::set_structures(&mut all, &none, vec![]),
        Collection::set_custom_structures(&mut all, &none, vec![]),
        Collection::remove_structure(&mut all, &none, &none),
        Collection::remove_custom_structure(&mut all, &none, &none),
        Collection::update_project_id(&mut all, &none, "p"),
        Collection::update_name(&mut all, &none, "N"),
        Collection::update_description(&mut all, &none, "d"),
        Collection::delete(&mut all, &none),
    ] {
        assert_eq!(result, err("Error: Collection not found"));
    }
    assert_eq!(
        Collection::update_id(&mut all, &id, ""),
        err("Error: id does not contain enough characters")
    );
    assert_eq!(
        Collection::update_id(&mut all, &id, &"i".repeat(101)),
        err("Error: new_id contains too many characters")
    );
    assert_eq!(
        Collection::update_project_id(&mut all, &id, ""),
        err("Error: project_id does not contain enough characters")
    );
    assert_eq!(
        Collection::update_project_id(&mut all, &id, &"p".repeat(101)),
        err("Error: project_id contains too many characters")
    );
    assert_eq!(
        Collection::update_description(&mut all, &id, " "),
        err("Error: description does not contain enough characters")
    );
    assert_eq!(
        Collection::update_description(&mut all, &id, &"d".repeat(401)),
        err("Error: description contains too many characters")
    );
    assert_eq!(Collection::update_id(&mut all, &id, "articles"), Ok(()));
    assert_eq!(Collection::update_project_id(&mut all, &String::from("articles"), "blog"), Ok(()));
    assert_eq!(Collection::update_name(&mut all, &String::from("articles"), " Articles "), Ok(()));
    assert_eq!(Collection::to_string(all[0].copy()), "articles;blog;Articles;To store blog posts.>>");
    assert_eq!(Collection::delete(&mut all, &String::from("articles")), Ok(()));
    assert!(all.is_empty());
}

#[test]
fn user_lines_and_roles() {
    let text = "1;A;B;ab;a@b.cc;hash;0\n2;C;D;cd;c@d.ee;hash;1\n3;E;F;ef;e@f.gg;hash;7\nxy\n4;G;H;gh;g@h.ii;hash;x\n5;I;J;ij;i@j.kk;hash;0";
    let all = read_all_users(text).unwrap();
    assert_eq!(all.len(), 3);
    assert_eq!(
        turn_users_to_str(all.clone()),
        "1;A;B;ab;a@b.cc;hash;0\n2;C;D;cd;c@d.ee;hash;1\n3;E;F;ef;e@f.gg;hash;2"
    );
    assert_eq!(User::to_string(all[1].copy()), "2;C;D;cd;c@d.ee;hash;1");
    assert!(read_all_users("1;A;B;ab;a@b.cc;hash").is_none());
    assert!(read_all_users("1;A;B;ab;a@b.cc;hash;x\nshort;line").unwrap().is_empty());
    assert!(matches!(Role::default(), Role::AUTHOR));
    let user = User::create_no_check("9", "A", "B", "ab", "a@b.cc", "hash", Role::ADMIN);
    assert_eq!(User::to_string(user), "9;A;B;ab;a@b.cc;hash;1");
}

#[test]
fn user_rules() {
    let mut all = read_all_users("1;A;B;ab;a@b.cc;hash;0\n2;C;D;cd;c@d.ee;hash;1").unwrap();
    let one = String::from("1");
    let none = String::from("none");
    assert!(User::exist(&all, "1"));
    assert!(!User::exist(&all, "3"));
    assert!(User::exist_username(&all, "AB"));
    assert!(!User::exist_username(&all, "abc"));
    assert!(User::exist_email(&all, "A@B.CC"));
    assert!(!User::exist_email(&all, "a@b.c"));
    assert_eq!(User::update_username(&mut all, &one, "CD"), err("Error: username already taken"));
    assert_eq!(User::update_username(&mut all, &one, "AB"), Ok(()));
    assert_eq!(
        User::update_username(&mut all, &one, "a b"),
        err("Error: username contains an invalid character")
    );
    assert_eq!(User::update_username(&mut all, &none, "zz"), err("Error: User not found"));
    assert_eq!(User::update_email(&mut all, &one, "C@D.EE"), err("Error: email already taken"));
    assert_eq!(User::update_email(&mut all, &one, "C@D.EE "), err("Error: email already taken"));
    assert_eq!(User::update_email(&mut all, &one, "nobody"), err("Error: Invalid email address"));
    assert_eq!(User::update_email(&mut all, &one, "Upper@case.com"), err("Error: Invalid email address"));
    assert_eq!(
        User::update_email(&mut all, &one, &format!("{}@example.com", "a".repeat(100))),
        err("Error: email contains too many characters")
    );
    assert_eq!(User::update_email(&mut all, &none, "x@y.zz"), err("Error: User not found"));
    assert_eq!(User::update_email(&mut all, &one, "new@mail.org and more"), Ok(()));
    assert_eq!(
        User::update_name(&mut all, &one, "", "B"),
        err("Error: first_name does not contain enough characters")
    );
    assert_eq!(
        User::update_name(&mut all, &one, &"a".repeat(101), "B"),
        err("Error: first_name contains too many characters")
    );
    assert_eq!(
        User::update_name(&mut all, &one, "A", " "),
        err("Error: last_name does not contain enough characters")
    );
    assert_eq!(
        User::update_name(&mut all, &one, "A", &"b".repeat(101)),
        err("Error: last_name contains too many characters")
    );
    assert_eq!(User::update_name(&mut all, &none, "A", "B"), err("Error: User not found"));
    assert_eq!(User::update_name(&mut all, &one, " Zoë ", "van-der Berg"), Ok(()));
    assert_eq!(User::update_role(&mut all, &none, 0), err("Error: User not found"));
    assert_eq!(User::update_role(&mut all, &one, 1), Ok(()));
    assert_eq!(User::update_password(&mut all, &none, "Test123*"), err("Error: User not found"));
    assert_eq!(
        User::update_password(&mut all, &one, &format!("Aa1{}", "x".repeat(98))),
        err("Error: password contains too many characters")
    );
    assert_eq!(User::put_password(&mut all, &one, String::from("other")), Ok(()));
    assert_eq!(User::put_password(&mut all, &none, String::from("other")), err("Error: User not found"));
    assert_eq!(
        User::to_string(all[0].copy()),
        "1;Zoë;van-der Berg;AB;new@mail.org and more;other;1"
    );
    assert_eq!(all[0].id_text(), "1");
    assert_eq!(User::delete(&mut all, &none), err("Error: User not found"));
    assert_eq!(User::delete(&mut all, &one), Ok(()));
    assert_eq!(all.len(), 1);
}

#[test]
fn password_rules() {
    assert_eq!(check_password("Test123*"), None);
    assert_eq!(check_password("  Test12  "), Some(String::from("Error: password should be longer than 7 characters")));
    assert_eq!(check_password("Test１２３"), None);
    assert_eq!(
        check_password("ÉCOLE123"),
        Some(String::from("Error: password should contain at least 1 lowercase alphabetic character"))
    );
    assert_eq!(
        check_password("école123"),
        Some(String::from("Error: password should contain at least 1 uppercase alphabetic character"))
    );
    assert_eq!(
        check_password("Test;test"),
        Some(String::from("Error: password should contain at least 1 number"))
    );
    assert_eq!(
        check_password("Test;123"),
        Some(String::from("Error: password contains a forbidden character (;)"))
    );
}

#[test]
fn login_goes_by_email_or_username() {
    let mut all = Vec::new();
    User::register(&mut all, "Ann", "Lee", "ann", "ann@lee.org", " Secret123 ", 1).unwrap();
    assert_eq!(User::login(&all, "bob", "Secret123").unwrap_err(), "Error: User not found");
    assert_eq!(User::login(&all, "ANN", "Secret123").unwrap_err(), "Error: User not found");
    assert_eq!(User::login(&all, "ann", "secret123").unwrap_err(), "Error: Password mismatch");
    let by_name = User::login(&all, "ann", "Secret123").unwrap();
    let by_mail = User::login(&all, "ann@lee.org", "  Secret123\n").unwrap();
    assert_eq!(by_name.id, by_mail.id);
    assert_eq!(by_name.id, all[0].id);
    assert_eq!(by_name.id.len(), 36);
    let line = User::to_string(by_name);
    assert!(line.ends_with(";1"));
    assert!(line.contains(";Ann;Lee;ann;ann@lee.org;$2b$10$"));
}

#[test]
fn failed_creation_leaves_no_user_behind() {
    let mut all = Vec::new();
    assert_eq!(
        User::create(&mut all, "Ann", "Lee", "ann", "ann@lee.org", "weak", 1),
        err("Error: password should be longer than 7 characters")
    );
    assert!(all.is_empty());
}

#[test]
fn encryption_gives_the_text_back() {
    let sealed = EncryptionKey::encrypt(String::from("some data"), "key of the day");
    assert_ne!(sealed, "some data");
    assert_eq!(sealed, EncryptionKey::encrypt(String::from("some data"), "key of the day"));
    assert_ne!(sealed, EncryptionKey::encrypt(String::from("some data"), "other key"));
    assert_ne!(sealed, EncryptionKey::encrypt(String::from("other data"), "key of the day"));
    assert_eq!(EncryptionKey::decrypt(sealed.clone(), "key of the day").unwrap().0, "some data");
    assert!(EncryptionKey::decrypt(sealed, "other key").is_err());
    assert!(EncryptionKey::decrypt(String::from("not base64!"), "key").is_err());
    assert_eq!(EncryptionKey::default().0, "");
}

#[test]
fn files_are_sealed_line_by_line() {
    let data = "first line\nab\nsecond line\n\nthird";
    assert_eq!(seal_content(data, ""), data);
    assert_eq!(seal_content(data, "ab"), data);
    let sealed = seal_content(data, "abc");
    let lines: Vec<&str> = sealed.split('\n').collect();
    assert_eq!(lines.len(), 4);
    assert_eq!(lines[0], ";|encrypted|;");
    assert_eq!(lines[1], EncryptionKey::encrypt(String::from("first line"), "abc"));
    assert_eq!(lines[3], EncryptionKey::encrypt(String::from("third"), "abc"));
    assert_eq!(open_content(&sealed, "abc"), "first line\nsecond line\nthird");
    assert_eq!(read_content(&sealed, "abd"), Some(String::new()));
    assert_eq!(open_content(&sealed, "ab"), sealed);
    assert_eq!(open_content(data, "abc"), data);
    assert_eq!(read_content("", "abc"), None);
    assert_eq!(read_content("ab\ncd", "abc"), None);
    assert_eq!(read_content("", "ab"), Some(String::new()));
    assert_eq!(seal_content("", "abc"), ";|encrypted|;");
    assert_eq!(open_content(";|encrypted|;", "abc"), "");
}

#[test]
fn a_key_file_that_is_still_sealed_gives_no_key() {
    assert_eq!(read_encryption_key(String::from("the key")), Ok(String::from("the key")));
    assert_eq!(read_encryption_key(String::new()), Ok(String::new()));
    assert_eq!(
        read_encryption_key(String::from(";|encrypted|;\nabc")),
        Err(String::from("Error: Decryption failed"))
    );
    assert_eq!(
        read_encryption_key(String::from("x\n;|encrypted|;")),
        Ok(String::from("x\n;|encrypted|;"))
    );
}

#[test]
fn a_fresh_installation_gets_its_mappings() {
    let all = initialize_mappings(Vec::new());
    assert_eq!(
        turn_mappings_to_str(all.clone()),
        "users=data/users.txt\nprojects=data/projects.txt\nconfigs=data/configs.txt\n\
         collections=data/collections.txt\nencryption_key=data/encryption_key.txt"
    );
    assert_eq!(turn_mappings_to_str(initialize_mappings(all.clone())), turn_mappings_to_str(all));
    let own = get_mappings_from_str("users=elsewhere.txt");
    assert_eq!(initialize_mappings(own).len(), 5);
}

#[test]
fn a_fresh_installation_gets_its_configs() {
    let all = initialize_configs(Vec::new());
    assert_eq!(all.len(), 21);
    assert_eq!(all[0].name, "ENV");
    assert_eq!(all[20].name, "CORS_WHITELIST");
    assert!(all.iter().all(|config| config.value == "_empty"));
    let own = vec![Config::create_no_check("env", "production")];
    let all = initialize_configs(own);
    assert_eq!(all.len(), 21);
    assert_eq!(all[0].value, "production");
}

#[test]
fn a_fresh_installation_gets_its_first_project_and_user() {
    let all = initialize_projects(Vec::new());
    assert_eq!(
        turn_projects_to_str(all.clone()),
        "konnect;Konnect - Social Media;A next-gen social media.;/api/v2/konnect"
    );
    assert_eq!(initialize_projects(all).len(), 1);
    let users = initialize_users(Vec::new());
    assert_eq!(users.len(), 1);
    assert!(User::login(&users, "EdgeKing810", "Test123*").is_ok());
    assert!(User::login(&users, "kishan@konnect.dev", "Test123*").is_ok());
    assert_eq!(initialize_users(users).len(), 1);
}

#[test]
fn a_fresh_installation_gets_its_first_collection() {
    let mut all = Vec::new();
    assert_eq!(initialize_collections(&mut all), Ok(()));
    assert_eq!(
        kinesis_db::collection::turn_collections_to_str(all.clone()),
        "posts;konnect;Posts;To store blog posts.>\
         title|Title|text|test title|5|20|false|false||false%\
         cover_image|Cover Image|media|https://test.image.com|0|200|false|false||false%\
         content|Content|richtext|[ Content goes here ]|30|2000|false|false||false%\
         views|Views|number|0|0|9999|false|false||false%\
         comment|Comments|comment|0|0|9999|false|false||true%\
         published|Published|boolean|false|0|5|false|false||true>\
         comment|comment|uid|UID|uid||5|20|false|true||false%\
         value|Value|text||1|100|false|false||false"
    );
    assert_eq!(initialize_collections(&mut all), Ok(()));
    assert_eq!(all.len(), 1);
}

#[test]
fn a_user_is_created_under_the_id_that_was_drawn() {
    let mut all = Vec::new();
    let result = User::create_as(
        &mut all,
        String::from("fixed-id"),
        String::from("first-hash"),
        " Ann ",
        "Lee",
        "ann",
        "ann@lee.org",
        "Secret123",
        0,
    );
    assert_eq!(result, Ok(()));
    assert_eq!(all.len(), 1);
    assert_eq!(all[0].id, "fixed-id");
    let line = User::to_string(all[0].copy());
    assert!(line.starts_with("fixed-id;Ann;Lee;ann;ann@lee.org;$2b$10$"));
    assert!(line.ends_with(";0"));
    let result = User::create_as(
        &mut all,
        String::from("other-id"),
        String::from("first-hash"),
        "Bob",
        "Lee",
        "ANN",
        "bob@lee.org",
        "Secret123",
        0,
    );
    assert_eq!(result, err("Error: username already taken"));
    assert_eq!(all.len(), 1);
    let result = User::create_as(
        &mut all,
        String::from("fixed-id"),
        String::from("first-hash"),
        "Bob",
        "Lee",
        "bob",
        "bob@lee.org",
        "Secret123",
        0,
    );
    assert_eq!(result, Ok(()));
    assert_eq!(all.len(), 2);
    assert!(User::to_string(all[0].copy()).starts_with("fixed-id;Bob;Lee;bob;bob@lee.org;$2b$10$"));
    assert_eq!(User::to_string(all[1].copy()), "fixed-id;;;;;first-hash;2");
}

#[test]
fn a_reset_removes_the_mappings_file_and_the_mapped_files() {
    let all = get_mappings_from_str("users=data/users.txt\nconfigs=data/configs.txt");
    assert_eq!(
        kinesis_db::setup::reset_db(all),
        vec!["data/mappings.txt", "data/users.txt", "data/configs.txt"]
    );
    assert_eq!(kinesis_db::setup::reset_db(Vec::new()), vec!["data/mappings.txt"]);
}

#[test]
fn white_space_is_what_the_standard_library_takes_for_it() {
    for code in 0u32..=0x10ffff {
        if let Some(c) = char::from_u32(code) {
            assert_eq!(kinesis_db::text::is_white_space(c), c.is_whitespace(), "{:x}", code);
        }
    }
}

#[test]
fn created_records_are_found_by_their_id() {
    let mut projects = Vec::new();
    Project::create(&mut projects, "a-b_c", "Name", "", "/a").unwrap();
    assert!(Project::exist(&projects, "a-b_c"));
    let mut structures = Vec::new();
    Structure::create(&mut structures, "a-b_c", "Name", "text", "", 0, 1, false, false, "", false)
        .unwrap();
    assert!(Structure::exist(&structures, "a-b_c"));
    let mut customs = Vec::new();
    CustomStructure::create(&mut customs, "a-b_c", "Name").unwrap();
    assert!(CustomStructure::exist(&customs, "a-b_c"));
    let mut collections = Vec::new();
    Collection::create(&mut collections, "a-b_c", "project", "Name", "text").unwrap();
    assert!(Collection::exist(&collections, "a-b_c"));
}

#[test]
fn deleted_records_are_gone() {
    let id = String::from("a");
    let mut projects = read_all_projects("a;A;;/a\nb;B;;/b\na;C;;/c").unwrap();
    Project::delete(&mut projects, &id).unwrap();
    assert!(!Project::exist(&projects, "a"));
    assert_eq!(projects.len(), 1);
    let mut structures = vec![title(), title()];
    Structure::delete(&mut structures, &String::from("title")).unwrap();
    assert!(structures.is_empty());
    let mut customs = get_custom_structures_from_str("a|A|#b|B|");
    CustomStructure::delete(&mut customs, &id).unwrap();
    assert!(!CustomStructure::exist(&customs, "a"));
    let mut collections = get_collections_from_str("a;p;A;first>>\nb;p;B;second>>");
    Collection::delete(&mut collections, &id).unwrap();
    assert!(!Collection::exist(&collections, "a"));
    assert!(Collection::exist(&collections, "b"));
    let mut configs = get_configs_from_str("a|1\nb|2\na|3");
    Config::delete(&mut configs, "a").unwrap();
    assert_eq!(kinesis_db::config::turn_configs_to_str(configs), "b|2");
    let mut users = read_all_users("1;A;B;ab;a@b.cc;hash;0\n2;C;D;cd;c@d.ee;hash;1").unwrap();
    User::delete(&mut users, &String::from("1")).unwrap();
    assert!(!User::exist(&users, "1"));
    assert!(User::exist(&users, "2"));
}

#[test]
fn a_stored_hash_without_the_look_of_bcrypt_is_a_mismatch() {
    for stored in ["", "x", "\u{1}x", "hash", "$1$5pZSV9va$azfrPr6af3Fc7dLblQXVa0", "$2x$05$abc", "$2b$05$\u{80}"] {
        assert!(!kinesis_db::user::has_bcrypt_look(stored), "{:?}", stored);
        let users = vec![User::create_no_check("1", "A", "B", "ab", "a@b.cc", stored, Role::ROOT)];
        assert_eq!(User::login(&users, "ab", "password").unwrap_err(), "Error: Password mismatch");
    }
    for stored in ["$2a$", "$2b$xx", "$2y$05$short", "$2b$05$~~~~~~~~~~~~~~~~~~~~~~rest", "$2a$99$......................"] {
        assert!(kinesis_db::user::has_bcrypt_look(stored), "{:?}", stored);
        let users = vec![User::create_no_check("1", "A", "B", "ab", "a@b.cc", stored, Role::ROOT)];
        assert_eq!(User::login(&users, "ab", "password").unwrap_err(), "Error: Password mismatch");
    }
    let stored = "$2y$05$bvIG6Nmid91Mu9RcmmWZfO5HJIMCT8riNW0hEp8f6/FuA2/mHZFpe";
    assert!(kinesis_db::user::has_bcrypt_look(stored));
    let users = vec![User::create_no_check("1", "A", "B", "ab", "a@b.cc", stored, Role::ROOT)];
    assert!(User::login(&users, "a@b.cc", " password ").is_ok());
    assert_eq!(User::login(&users, "ab", "Password").unwrap_err(), "Error: Password mismatch");
}

#[test]
fn texts_are_the_same_where_their_characters_are() {
    assert!(same_text("", ""));
    assert!(same_text("héllo", "héllo"));
    assert!(!same_text("héllo", "hello"));
    assert!(!same_text("a", "ab"));
    assert!(!same_text("ab", "a"));
    assert!(!same_text("é", "e\u{301}"));
    assert!(!same_text("A", "a"));
}

#[test]
fn every_text_with_the_look_of_bcrypt_gets_an_answer() {
    let costs = ["04", "05", "xx", "4", "+5", "99", "", "0", "004"];
    let tags = ["$2a$", "$2b$", "$2y$"];
    let mut state: u32 = 12345;
    let mut next = move || {
        state = state.wrapping_mul(1664525).wrapping_add(1013904223);
        (state >> 8) as usize
    };
    for round in 0..400 {
        let mut stored = String::from(tags[next() % 3]);
        stored.push_str(costs[next() % costs.len()]);
        if round % 5 != 0 {
            stored.push('$');
        }
        let length = next() % 60;
        for _ in 0..length {
            let code = 0x20 + (next() % 0x5f) as u8;
            stored.push(code as char);
        }
        assert!(kinesis_db::user::has_bcrypt_look(&stored), "{:?}", stored);
        let users = vec![User::create_no_check("1", "A", "B", "ab", "a@b.cc", &stored, Role::ROOT)];
        assert_eq!(
            User::login(&users, "ab", "password").unwrap_err(),
            "Error: Password mismatch",
            "{:?}",
            stored
        );
    }
}
