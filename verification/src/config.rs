//! Named configuration values.

use crate::text::{
    all_alnum_or, chars_of, check_length, ends, failed, fine, first_index, holds, is_alnum_or,
    is_among, joined, joined_lines, lemma_first_index, lemma_first_index_is, length_error,
    lowercase, push_line, record_lines, same_text, split, split_keeping, split_on, string_of,
    trim, trimmed, views, Outcome,
};
use vstd::prelude::*;

verus! {

/// One configuration value under its name.
#[derive(Default, Debug, Clone)]
pub struct Config {
    pub name: String,
    pub value: String,
}

/// What a `Config` holds.
pub struct ConfigView {
    pub name: Seq<char>,
    pub value: Seq<char>,
}

impl View for Config {
    type V = ConfigView;

    open spec fn view(&self) -> ConfigView {
        ConfigView { name: self.name@, value: self.value@ }
    }
}

/// The views of a list of configs.
pub open spec fn config_views(all: Seq<Config>) -> Seq<ConfigView> {
    Seq::new(all.len(), |index: int| all[index]@)
}

/// The names of the configs, in order.
pub open spec fn names_of(all: Seq<ConfigView>) -> Seq<Seq<char>> {
    Seq::new(all.len(), |index: int| all[index].name)
}

/// The names of the configs in lowercase, in order.
pub open spec fn lowered_names(all: Seq<ConfigView>) -> Seq<Seq<char>> {
    Seq::new(all.len(), |index: int| lowercase(all[index].name))
}

/// The list without the configs of the given name.
pub open spec fn without_name(all: Seq<ConfigView>, name: Seq<char>) -> Seq<ConfigView>
    decreases all.len(),
{
    if all.len() == 0 {
        all
    } else if all[0].name == name {
        without_name(all.skip(1), name)
    } else {
        seq![all[0]] + without_name(all.skip(1), name)
    }
}

/// What `Config::update_value` does: the first config of the name gets the
/// trimmed value, unless the value holds a `|` or has, trimmed, not between
/// 1 and 200 bytes, or no config has the name.
pub open spec fn value_updated(all: Seq<ConfigView>, name: Seq<char>, value: Seq<char>) -> Outcome<
    ConfigView,
> {
    if value.contains('|') {
        failed(all, "Error: value contains an invalid character"@)
    } else {
        match length_error(
            value,
            1,
            200,
            "Error: value does not contain enough characters"@,
            "Error: value contains too many characters"@,
        ) {
            Some(message) => failed(all, message),
            None => {
                let at = first_index(names_of(all), name);
                if at == all.len() {
                    failed(all, "Error: Config not found"@)
                } else {
                    fine(all.update(at, ConfigView { name: all[at].name, value: trimmed(value) }))
                }
            },
        }
    }
}

/// What `Config::delete` does: every config of the name leaves the list,
/// unless there is none.
pub open spec fn deleted(all: Seq<ConfigView>, name: Seq<char>) -> Outcome<ConfigView> {
    if !is_among(names_of(all), name) {
        failed(all, "Error: Config not found"@)
    } else {
        fine(without_name(all, name))
    }
}

/// What `Config::create` does.
///
/// The name may hold ASCII letters and digits, `-` and `_`, must have,
/// trimmed, between 1 and 100 bytes, and must differ from the names in the
/// list even where case is left aside. A config of the trimmed name and
/// value then joins the list and has its value set as `update_value` sets
/// it; where that fails the configs of the name are deleted again.
pub open spec fn created(all: Seq<ConfigView>, name: Seq<char>, value: Seq<char>) -> Outcome<
    ConfigView,
> {
    if !all_alnum_or(name, seq!['-', '_']) {
        failed(all, "Error: name contains an invalid character"@)
    } else {
        match length_error(
            name,
            1,
            100,
            "Error: name does not contain enough characters"@,
            "Error: name contains too many characters"@,
        ) {
            Some(message) => failed(all, message),
            None => {
                let clash = first_index(lowered_names(all), lowercase(name));
                if clash < all.len() {
                    failed(
                        all,
                        "Error: A config with that name already exists ("@ + all[clash].name + ")"@,
                    )
                } else {
                    let added = all.push(
                        ConfigView { name: trimmed(name), value: trimmed(value) },
                    );
                    let set = value_updated(added, name, value);
                    match set.error {
                        None => set,
                        Some(message) => {
                            let undone = deleted(set.list, name);
                            match undone.error {
                                None => failed(undone.list, message),
                                Some(other) => failed(undone.list, other),
                            }
                        },
                    }
                }
            },
        }
    }
}

/// The line that writes a config.
pub open spec fn line_of_config(config: ConfigView) -> Seq<char> {
    config.name + seq!['|'] + config.value
}

/// Whether a line has a name and a value.
pub open spec fn is_config_line(line: Seq<char>) -> bool {
    split(line, '|').len() >= 2
}

/// The config that a line of the form `name|value` writes.
pub open spec fn config_of_line(line: Seq<char>) -> ConfigView {
    ConfigView { name: trimmed(split(line, '|')[0]), value: trimmed(split(line, '|')[1]) }
}

/// The configs that the lines write, one for each line.
pub open spec fn configs_of_lines(lines: Seq<Seq<char>>) -> Seq<ConfigView> {
    Seq::new(lines.len(), |index: int| config_of_line(lines[index]))
}

/// The lines that write the configs.
pub open spec fn lines_of_configs(all: Seq<ConfigView>) -> Seq<Seq<char>> {
    Seq::new(all.len(), |index: int| line_of_config(all[index]))
}

/// Whether every line of a text has a name and a value.
pub open spec fn all_config_lines(lines: Seq<Seq<char>>) -> bool {
    forall|index: int| 0 <= index < lines.len() ==> is_config_line(#[trigger] lines[index])
}

impl Config {
    /// A config of the trimmed name and value, with nothing checked.
    pub fn create_no_check(name: &str, value: &str) -> (config: Config)
        ensures
            config@ == (ConfigView { name: trimmed(name@), value: trimmed(value@) }),
    {
        Config { name: trim(&chars_of(name)), value: trim(&chars_of(value)) }
    }

    /// Position of the first config with the name, or the length of the
    /// list.
    fn position(all_configs: &Vec<Config>, name: &str) -> (at: usize)
        ensures
            at == first_index(names_of(config_views(all_configs@)), name@),
            at <= all_configs.len(),
            at < all_configs.len() ==> all_configs@[at as int]@.name == name@,
    {
        let ghost names = names_of(config_views(all_configs@));
        let mut at: usize = 0;
        while at < all_configs.len()
            invariant
                at <= all_configs.len(),
                names == names_of(config_views(all_configs@)),
                forall|index: int| 0 <= index < at ==> #[trigger] names[index] != name@,
            decreases all_configs.len() - at,
        {
            if same_text(all_configs[at].name.as_str(), name) {
                proof {
                    assert(names[at as int] == name@);
                    lemma_first_index(names, name@, at as int);
                }
                return at;
            }
            assert(names[at as int] != name@);
            at = at + 1;
        }
        proof {
            lemma_first_index(names, name@, at as int);
        }
        at
    }

    /// Position of the first config whose name is the given one where case
    /// is left aside, or the length of the list.
    fn position_lowered(all_configs: &Vec<Config>, name: &str) -> (at: usize)
        ensures
            at == first_index(lowered_names(config_views(all_configs@)), lowercase(name@)),
            at <= all_configs.len(),
    {
        let ghost names = lowered_names(config_views(all_configs@));
        let lowered = name.to_lowercase();
        let mut at: usize = 0;
        while at < all_configs.len()
            invariant
                at <= all_configs.len(),
                lowered@ == lowercase(name@),
                names == lowered_names(config_views(all_configs@)),
                forall|index: int| 0 <= index < at ==> #[trigger] names[index] != lowered@,
            decreases all_configs.len() - at,
        {
            let current = all_configs[at].name.as_str().to_lowercase();
            if same_text(current.as_str(), lowered.as_str()) {
                proof {
                    assert(names[at as int] == lowered@);
                    lemma_first_index(names, lowered@, at as int);
                }
                return at;
            }
            assert(names[at as int] != lowered@);
            at = at + 1;
        }
        proof {
            lemma_first_index(names, lowered@, at as int);
        }
        at
    }

    /// Whether a config of the list has the name, case left aside.
    pub fn exist(all_configs: &Vec<Config>, name: &str) -> (found: bool)
        ensures
            found == is_among(lowered_names(config_views(all_configs@)), lowercase(name@)),
    {
        Self::position_lowered(all_configs, name) < all_configs.len()
    }

    /// Adds a config; see `created`.
    pub fn create(
        all_configs: &mut Vec<Config>,
        name: &str,
        value: &str,
    ) -> (result: Result<(), String>)
        ensures
            ends(
                result,
                config_views(final(all_configs)@),
                created(config_views(old(all_configs)@), name@, value@),
            ),
    {
        let name_chars = chars_of(name);
        let extra: Vec<char> = vec!['-', '_'];
        assert(extra@ =~= seq!['-', '_']);
        if !is_alnum_or(&name_chars, &extra) {
            return Err(String::from_str("Error: name contains an invalid character"));
        }
        let short_name = trim(&name_chars);
        match check_length(
            &short_name,
            1,
            100,
            "Error: name does not contain enough characters",
            "Error: name contains too many characters",
        ) {
            Some(message) => {
                return Err(message);
            },
            None => {},
        }
        let clash = Self::position_lowered(all_configs, name);
        if clash < all_configs.len() {
            return Err(
                joined(
                    "Error: A config with that name already exists (",
                    all_configs[clash].name.as_str(),
                    ")",
                ),
            );
        }
        let ghost before = config_views(all_configs@);
        let config = Config { name: short_name, value: trim(&chars_of(value)) };
        all_configs.push(config);
        assert(config_views(all_configs@) =~= before.push(config@));
        match Self::update_value(all_configs, name, value) {
            Ok(()) => Ok(()),
            Err(message) => {
                match Self::delete(all_configs, name) {
                    Ok(()) => Err(message),
                    Err(other) => Err(other),
                }
            },
        }
    }

    /// Sets the value of a config; see `value_updated`.
    pub fn update_value(
        all_configs: &mut Vec<Config>,
        name: &str,
        value: &str,
    ) -> (result: Result<(), String>)
        ensures
            ends(
                result,
                config_views(final(all_configs)@),
                value_updated(config_views(old(all_configs)@), name@, value@),
            ),
    {
        let value_chars = chars_of(value);
        if holds(&value_chars, '|') {
            return Err(String::from_str("Error: value contains an invalid character"));
        }
        let short_value = trim(&value_chars);
        match check_length(
            &short_value,
            1,
            200,
            "Error: value does not contain enough characters",
            "Error: value contains too many characters",
        ) {
            Some(message) => {
                return Err(message);
            },
            None => {},
        }
        let at = Self::position(all_configs, name);
        if at == all_configs.len() {
            return Err(String::from_str("Error: Config not found"));
        }
        let ghost before = config_views(all_configs@);
        let changed = Config { name: all_configs[at].name.clone(), value: short_value };
        all_configs[at] = changed;
        assert(config_views(all_configs@) =~= before.update(
            at as int,
            ConfigView { name: before[at as int].name, value: trimmed(value@) },
        ));
        Ok(())
    }

    /// Deletes the configs of a name; see `deleted`.
    pub fn delete(all_configs: &mut Vec<Config>, name: &str) -> (result: Result<(), String>)
        ensures
            ends(
                result,
                config_views(final(all_configs)@),
                deleted(config_views(old(all_configs)@), name@),
            ),
    {
        if Self::position(all_configs, name) == all_configs.len() {
            return Err(String::from_str("Error: Config not found"));
        }
        let ghost before = config_views(all_configs@);
        let mut at: usize = all_configs.len();
        assert(before.skip(at as int) =~= Seq::empty());
        while at > 0
            invariant
                at <= all_configs.len(),
                at <= before.len(),
                config_views(all_configs@).take(at as int) == before.take(at as int),
                config_views(all_configs@).skip(at as int) == without_name(
                    before.skip(at as int),
                    name@,
                ),
            decreases at,
        {
            at = at - 1;
            let ghost current = config_views(all_configs@);
            let ghost tail = before.skip(at as int);
            assert(tail.skip(1) =~= before.skip(at + 1));
            assert(tail[0] == before[at as int]);
            assert(current[at as int] == current.take(at + 1)[at as int]);
            assert(before[at as int] == before.take(at + 1)[at as int]);
            if same_text(all_configs[at].name.as_str(), name) {
                all_configs.remove(at);
                assert(config_views(all_configs@).skip(at as int) =~= current.skip(at + 1));
            } else {
                assert(current.skip(at as int) =~= seq![current[at as int]] + current.skip(
                    at + 1,
                ));
            }
            assert(config_views(all_configs@).take(at as int) =~= current.take(at + 1).take(
                at as int,
            ));
            assert(before.take(at as int) =~= before.take(at + 1).take(at as int));
        }
        assert(config_views(all_configs@).skip(0) =~= config_views(all_configs@));
        assert(before.skip(0) =~= before);
        Ok(())
    }

    /// The line `name|value` that writes the config.
    pub fn to_string(config: Config) -> (line: String)
        ensures
            line@ == line_of_config(config@),
    {
        Self::line(&config)
    }

    /// The line that writes the config.
    fn line(config: &Config) -> (line: String)
        ensures
            line@ == line_of_config(config@),
    {
        proof {
            reveal_strlit("|");
        }
        let line = joined(config.name.as_str(), "|", config.value.as_str());
        assert("|"@ =~= seq!['|']);
        line
    }

    /// The config that a line of the form `name|value` writes; what follows
    /// a second `|` is left out.
    pub fn from_string(config_str: &str) -> (config: Config)
        requires
            is_config_line(config_str@),
        ensures
            config@ == config_of_line(config_str@),
    {
        Self::from_chars(&chars_of(config_str))
    }

    /// The config that the characters of a line write.
    fn from_chars(line: &Vec<char>) -> (config: Config)
        requires
            is_config_line(line@),
        ensures
            config@ == config_of_line(line@),
    {
        let pieces = split_on(line, '|');
        assert(views(pieces@).len() == pieces@.len());
        assert(views(pieces@)[0] == pieces@[0]@);
        assert(views(pieces@)[1] == pieces@[1]@);
        Config { name: trim(&pieces[0]), value: trim(&pieces[1]) }
    }

    /// The configs that the given lines write, where every line writes one.
    fn from_lines(lines: &Vec<Vec<char>>) -> (result: Option<Vec<Config>>)
        ensures
            result is Some == all_config_lines(views(lines@)),
            result matches Some(all) ==> config_views(all@) == configs_of_lines(views(lines@)),
    {
        let ghost wanted = views(lines@);
        let mut all: Vec<Config> = Vec::new();
        let mut at: usize = 0;
        while at < lines.len()
            invariant
                at <= lines.len(),
                views(lines@) == wanted,
                forall|index: int| 0 <= index < at ==> is_config_line(#[trigger] wanted[index]),
                config_views(all@) == configs_of_lines(wanted.take(at as int)),
            decreases lines.len() - at,
        {
            assert(views(lines@)[at as int] == lines@[at as int]@);
            let pieces = split_on(&lines[at], '|');
            assert(views(pieces@).len() == pieces@.len());
            if pieces.len() < 2 {
                assert(!is_config_line(wanted[at as int]));
                return None;
            }
            assert(views(pieces@)[0] == pieces@[0]@);
            assert(views(pieces@)[1] == pieces@[1]@);
            let ghost before = config_views(all@);
            let config = Config { name: trim(&pieces[0]), value: trim(&pieces[1]) };
            all.push(config);
            assert(config_views(all@) =~= before.push(config@));
            assert(config_views(all@) =~= configs_of_lines(wanted.take(at + 1)));
            at = at + 1;
        }
        assert(wanted.take(wanted.len() as int) =~= wanted);
        Some(all)
    }
}

/// Reads the configs out of the text of a configs file: one from each line
/// of three characters or more. There is no result where such a line lacks
/// the `|`.
pub fn read_all_configs(all_configs_raw: &str) -> (result: Option<Vec<Config>>)
    ensures
        result is Some == all_config_lines(record_lines(all_configs_raw@)),
        result matches Some(all) ==> config_views(all@) == configs_of_lines(
            record_lines(all_configs_raw@),
        ),
{
    let lines = split_keeping(&chars_of(all_configs_raw), '\n', 3);
    Config::from_lines(&lines)
}

/// Reads the configs out of the text of a configs file: one from each line
/// of three characters or more.
pub fn fetch_all_configs(all_configs_raw: &str) -> (all: Vec<Config>)
    requires
        all_config_lines(record_lines(all_configs_raw@)),
    ensures
        config_views(all@) == configs_of_lines(record_lines(all_configs_raw@)),
{
    match read_all_configs(all_configs_raw) {
        Some(all) => all,
        None => Vec::new(),
    }
}

/// Reads the configs out of a text that holds one in each of its lines.
/// There is no result where a line lacks the `|`.
pub fn read_configs_from_str(configs: &str) -> (result: Option<Vec<Config>>)
    ensures
        result is Some == all_config_lines(split(configs@, '\n')),
        result matches Some(all) ==> config_views(all@) == configs_of_lines(
            split(configs@, '\n'),
        ),
{
    let lines = split_on(&chars_of(configs), '\n');
    Config::from_lines(&lines)
}

/// Reads the configs out of a text that holds one in each of its lines.
pub fn get_configs_from_str(configs: &str) -> (all: Vec<Config>)
    requires
        all_config_lines(split(configs@, '\n')),
    ensures
        config_views(all@) == configs_of_lines(split(configs@, '\n')),
{
    match read_configs_from_str(configs) {
        Some(all) => all,
        None => Vec::new(),
    }
}

/// The text of a configs file: the lines of the configs, joined.
pub fn turn_configs_to_str(configs: Vec<Config>) -> (text: String)
    ensures
        text@ == joined_lines(lines_of_configs(config_views(configs@)), '\n'),
{
    let ghost lines = lines_of_configs(config_views(configs@));
    let mut joined: Vec<char> = Vec::new();
    let mut at: usize = 0;
    assert(lines.take(0) =~= Seq::empty());
    while at < configs.len()
        invariant
            at <= configs.len(),
            lines == lines_of_configs(config_views(configs@)),
            joined@ == joined_lines(lines.take(at as int), '\n'),
        decreases configs.len() - at,
    {
        let line = Config::line(&configs[at]);
        assert(line@ == lines[at as int]);
        assert(lines.take(at + 1).drop_last() =~= lines.take(at as int));
        push_line(&mut joined, '\n', line.as_str());
        at = at + 1;
    }
    assert(lines.take(lines.len() as int) =~= lines);
    string_of(&joined)
}

/// No config of the name is left in the list without them.
pub proof fn lemma_without_name(all: Seq<ConfigView>, id: Seq<char>)
    ensures
        !is_among(names_of(without_name(all, id)), id),
    decreases all.len(),
{
    let left = without_name(all, id);
    if all.len() > 0 {
        lemma_without_name(all.skip(1), id);
        let rest = without_name(all.skip(1), id);
        lemma_first_index_is(names_of(rest), id);
        lemma_first_index_is(names_of(left), id);
        if all[0].name != id {
            assert(names_of(left).skip(1) =~= names_of(rest));
        }
    } else {
        assert(names_of(left).len() == 0);
    }
}

/// After a deletion that succeeds, no config has the name.
pub proof fn law_deleted_is_gone(all: Seq<ConfigView>, id: Seq<char>)
    requires
        deleted(all, id).error is None,
    ensures
        !is_among(names_of(deleted(all, id).list), id),
{
    lemma_without_name(all, id);
}

} // verus!
