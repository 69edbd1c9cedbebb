use vstd::prelude::*;

use crate::assoc::{copy_strings, lookup_pair, pairs_map, strings_of};
use crate::store::{resolve, SettingsStore};

verus! {

/// How the editor is started: a command and argument templates.
#[derive(Debug, Clone, PartialEq, Eq)]
pub struct EditorSettings {
    pub command: Option<String>,
    pub args: Option<Vec<String>>,
}

/// The whole configuration: aliases, named sets of paths, settings keyed by
/// directory, and the editor.
#[derive(Debug)]
pub struct Config {
    /// Alias name and the one path it stands for; a later pair overrides an
    /// earlier one of the same name.
    pub aliases: Vec<(String, String)>,
    /// Set name and its paths, the first being the primary one; a later pair
    /// overrides an earlier one of the same name.
    pub sets: Vec<(String, Vec<String>)>,
    pub settings: SettingsStore,
    pub editor: EditorSettings,
}

/// What a target name stands for.
#[derive(Debug, Clone, PartialEq, Eq)]
pub enum TargetType {
    Alias(String),
    Dir(String),
    Path(String),
    Group(Vec<String>),
}

/// The mathematical form of a [`TargetType`].
pub enum TargetModel {
    Alias(Seq<char>),
    Dir(Seq<char>),
    Path(Seq<char>),
    Group(Seq<Seq<char>>),
}

impl View for TargetType {
    type V = TargetModel;

    open spec fn view(&self) -> TargetModel {
        match self {
            TargetType::Alias(p) => TargetModel::Alias(p@),
            TargetType::Dir(p) => TargetModel::Dir(p@),
            TargetType::Path(p) => TargetModel::Path(p@),
            TargetType::Group(ps) => TargetModel::Group(strings_of(ps@)),
        }
    }
}

/// The paths that a target stands for, in order.
pub open spec fn expand(t: TargetModel) -> Seq<Seq<char>> {
    match t {
        TargetModel::Alias(p) => seq![p],
        TargetModel::Dir(p) => seq![p],
        TargetModel::Path(p) => seq![p],
        TargetModel::Group(ps) => ps,
    }
}

/// The map that a list of named sets stands for: a later set overrides an
/// earlier one of the same name.
pub open spec fn sets_map(s: Seq<(String, Vec<String>)>) -> Map<Seq<char>, Seq<Seq<char>>>
    decreases s.len(),
{
    if s.len() == 0 {
        Map::empty()
    } else {
        sets_map(s.drop_last()).insert(s.last().0@, strings_of(s.last().1@))
    }
}

/// `name` taken as one component below `root`.
pub open spec fn join_spec(root: Seq<char>, name: Seq<char>) -> Seq<char> {
    if root.len() == 0 {
        name
    } else if root.last() == '/' {
        root + name
    } else {
        root + seq!['/'] + name
    }
}

/// Relies on std::path::Path::join: a relative path is appended to a
/// non-empty base after one separator, unless the base already ends in one.
#[verifier::external_body]
pub(crate) fn join_path(root: &str, name: &str) -> (r: String)
    requires
        !name@.contains('/'),
    ensures
        r@ == join_spec(root@, name@),
{
    std::path::Path::new(root).join(name).to_string_lossy().into_owned()
}

/// Relies on str::contains with a char pattern: whether the text holds the
/// character.
#[verifier::external_body]
fn has_char(s: &str, c: char) -> (r: bool)
    ensures
        r == s@.contains(c),
{
    s.contains(c)
}

/// The directory under which a bare target name is looked for when no
/// root is configured.
pub open spec fn default_root() -> Seq<char> {
    "~/repos"@
}

/// The name of the setting that holds the root directory.
pub open spec fn root_key() -> Seq<char> {
    "root"@
}

/// What reading the configuration file gave.
pub enum LoadOutcome {
    /// There is no file.
    Missing,
    /// The file is there but could not be read or parsed.
    Corrupt,
    /// The file held this configuration.
    Parsed(Config),
}

/// A condition met while loading that the user should hear of.
#[derive(Debug, PartialEq, Eq, Structural)]
pub enum LoadWarning {
    /// The file could not be used, and the defaults stand in for it.
    Corrupt,
}

/// A configuration with no alias, set, setting or editor.
pub fn default_data() -> (r: Config)
    ensures
        r.is_empty(),
{
    Config {
        aliases: Vec::new(),
        sets: Vec::new(),
        settings: SettingsStore::new(),
        editor: EditorSettings { command: None, args: None },
    }
}

impl Config {
    /// The configuration to run with: the parsed one, else the defaults;
    /// a file that is there but unusable is reported, a missing one is not.
    pub fn from_path_or_default(outcome: LoadOutcome) -> (r: (Config, Option<LoadWarning>))
        ensures
            match outcome {
                LoadOutcome::Parsed(c) => r.0 == c && r.1 is None,
                LoadOutcome::Missing => r.0.is_empty() && r.1 is None,
                LoadOutcome::Corrupt => r.0.is_empty() && r.1 == Some(LoadWarning::Corrupt),
            },
    {
        match outcome {
            LoadOutcome::Parsed(c) => (c, None),
            LoadOutcome::Missing => (default_data(), None),
            LoadOutcome::Corrupt => (default_data(), Some(LoadWarning::Corrupt)),
        }
    }

    /// Whether the configuration holds no alias, set, setting or editor.
    pub open spec fn is_empty(&self) -> bool {
        &&& self.aliases@.len() == 0
        &&& self.sets@.len() == 0
        &&& self.settings@ == Map::<(Seq<Seq<char>>, Seq<char>), Seq<char>>::empty()
        &&& self.editor.command is None
        &&& self.editor.args is None
    }

    /// The configured root directory: the root setting of the filesystem
    /// root, or the default.
    pub open spec fn root_spec(&self) -> Seq<char> {
        match resolve(self.settings@, Seq::empty(), root_key()) {
            Some(r) => r,
            None => default_root(),
        }
    }

    /// What `target` stands for: an alias first, then a literal path when
    /// it holds a separator, then a set, and else a directory under the root.
    pub open spec fn target_spec(&self, target: Seq<char>) -> TargetModel {
        if pairs_map(self.aliases@).contains_key(target) {
            TargetModel::Alias(pairs_map(self.aliases@)[target])
        } else if target.contains('/') {
            TargetModel::Path(target)
        } else if sets_map(self.sets@).contains_key(target) {
            TargetModel::Group(sets_map(self.sets@)[target])
        } else {
            TargetModel::Dir(join_spec(self.root_spec(), target))
        }
    }

    /// The path that `alias` stands for.
    pub fn get_path_for_alias(&self, alias: &String) -> (r: Option<&String>)
        ensures
            r is Some == pairs_map(self.aliases@).contains_key(alias@),
            r is Some ==> r.unwrap()@ == pairs_map(self.aliases@)[alias@],
    {
        lookup_pair(&self.aliases, alias)
    }

    /// The paths of the set named `target`.
    pub fn get_paths_for_set(&self, target: &str) -> (r: Option<&Vec<String>>)
        ensures
            r is Some == sets_map(self.sets@).contains_key(target@),
            r is Some ==> strings_of(r.unwrap()@) == sets_map(self.sets@)[target@],
    {
        let name = target.to_owned();
        let mut found: Option<&Vec<String>> = None;
        let mut i: usize = 0;
        while i < self.sets.len()
            invariant
                i <= self.sets.len(),
                name@ == target@,
                found is Some == sets_map(self.sets@.take(i as int)).contains_key(target@),
                found is Some ==> strings_of(found.unwrap()@) == sets_map(self.sets@.take(i as int))[target@],
            decreases self.sets.len() - i,
        {
            assert(self.sets@.take(i + 1).drop_last() =~= self.sets@.take(i as int));
            if self.sets[i].0 == name {
                found = Some(&self.sets[i].1);
            }
            i = i + 1;
        }
        assert(self.sets@.take(self.sets.len() as int) =~= self.sets@);
        found
    }

    /// The configured root directory.
    pub fn get_root_path(&self) -> (r: Option<String>)
        ensures
            crate::assoc::opt_text(r) == resolve(self.settings@, Seq::empty(), root_key()),
    {
        let top: Vec<String> = Vec::new();
        proof {
            assert(strings_of(top@) =~= Seq::<Seq<char>>::empty());
        }
        self.settings.resolve_one(&top, &"root".to_owned())
    }

    /// What `target` stands for.
    pub fn get_target_type(&self, target: &String) -> (r: TargetType)
        ensures
            r@ == self.target_spec(target@),
    {
        if let Some(path) = self.get_path_for_alias(target) {
            return TargetType::Alias(path.clone());
        }
        if has_char(target.as_str(), '/') {
            return TargetType::Path(target.clone());
        }
        if let Some(paths) = self.get_paths_for_set(target.as_str()) {
            return TargetType::Group(copy_strings(paths));
        }
        let root = match self.get_root_path() {
            Some(r) => r,
            None => "~/repos".to_owned(),
        };
        TargetType::Dir(join_path(root.as_str(), target.as_str()))
    }

    /// The paths that `target` stands for, in order.
    pub fn get_paths_for_target(&self, target: &String) -> (r: Vec<String>)
        ensures
            strings_of(r@) == expand(self.target_spec(target@)),
    {
        let t = self.get_target_type(target);
        match t {
            TargetType::Alias(path) => {
                let r = vec![path];
                assert(strings_of(r@) =~= expand(self.target_spec(target@)));
                r
            },
            TargetType::Path(path) => {
                let r = vec![path];
                assert(strings_of(r@) =~= expand(self.target_spec(target@)));
                r
            },
            TargetType::Group(paths) => paths,
            TargetType::Dir(path) => {
                let r = vec![path];
                assert(strings_of(r@) =~= expand(self.target_spec(target@)));
                r
            },
        }
    }
}

/// A name that is both an alias and a set resolves as the alias.
pub proof fn law_alias_before_set(config: &Config, target: Seq<char>)
    requires
        pairs_map(config.aliases@).contains_key(target),
        sets_map(config.sets@).contains_key(target),
    ensures
        config.target_spec(target) == TargetModel::Alias(pairs_map(config.aliases@)[target]),
{
}

/// A name that holds a separator and is no alias resolves as that literal
/// path, whether or not a set bears the name.
pub proof fn law_separator_means_path(config: &Config, target: Seq<char>)
    requires
        target.contains('/'),
        !pairs_map(config.aliases@).contains_key(target),
    ensures
        config.target_spec(target) == TargetModel::Path(target),
{
}

} // verus!
