//! The directory store: the configuration tree rebuilt from a listing of a
//! directory of YAML files. One directory per project, one file per
//! environment, a file `project.yaml` with the project's description and
//! API keys, and a directory of shared environments.
//!
//! The caller lists the directory and reads the files; what it hands over
//! are plain values.
use crate::codec::as_optional_text;
use crate::merge::{lemma_upsert, upsert};
use crate::models::{
    distinct_keys, envs_wf, find_environment, find_project, has_key, lemma_position, lift, str_of,
    text_of, ApiKey, ApiKeyView, ConfigState, EnvView, Environment, Keyed, Project, ProjectView,
    SharedGroup, StateView,
};
use crate::project::{keys_kept, lemma_keys_kept};
use crate::text::{chars_of, same_text, string_of};
use crate::tree::push_lifted;
use crate::value::{lemma_array_view, value_views, ConfigValue, JsonView};
use crate::yaml::{
    converted, lemma_yaml_items_distinct, load_yaml_map, parsed_yaml, yaml_items, yaml_parse,
    yaml_to_json,
};
use vstd::prelude::*;

verus! {

/// The index of the last `.` of a file name; -1 where it has none.
pub open spec fn last_dot(name: Seq<char>) -> int
    decreases name.len(),
{
    if name.len() == 0 {
        -1
    } else if name.last() == '.' {
        name.len() - 1
    } else {
        last_dot(name.drop_last())
    }
}

/// Whether a file name splits into a stem and an extension: it has a `.`
/// that is not its first character, and it is not `..`.
pub open spec fn splits(name: Seq<char>) -> bool {
    last_dot(name) > 0 && name != seq!['.', '.']
}

/// The extension of a file name: what follows its last `.`.
pub open spec fn extension(name: Seq<char>) -> Option<Seq<char>> {
    if splits(name) {
        Some(name.subrange(last_dot(name) + 1, name.len() as int))
    } else {
        None
    }
}

/// The stem of a file name: what precedes its last `.`, or the whole name
/// where it has no extension.
pub open spec fn stem(name: Seq<char>) -> Seq<char> {
    if splits(name) {
        name.subrange(0, last_dot(name))
    } else {
        name
    }
}

/// Whether a file name has the extension `yaml` or `yml`.
pub open spec fn yaml_name(name: Seq<char>) -> bool {
    extension(name) == Some("yaml"@) || extension(name) == Some("yml"@)
}

/// The index of the last `.` of a file name.
fn find_last_dot(chars: &Vec<char>) -> (r: Option<usize>)
    ensures
        match r {
            Some(d) => d == last_dot(chars@) && d < chars.len(),
            None => last_dot(chars@) == -1,
        },
{
    let mut i: usize = chars.len();
    assert(chars@.take(i as int) =~= chars@);
    while i > 0
        invariant
            i <= chars.len(),
            last_dot(chars@) == last_dot(chars@.take(i as int)),
        decreases i,
    {
        if chars[i - 1] == '.' {
            return Some(i - 1);
        }
        assert(chars@.take(i as int).drop_last() =~= chars@.take(i as int - 1));
        i -= 1;
    }
    None
}

/// Splits a file name into its stem and its extension.
pub fn split_name(name: &str) -> (r: (String, Option<String>))
    ensures
        r.0@ == stem(name@),
        text_of(r.1) == extension(name@),
{
    let chars = chars_of(name);
    let n = chars.len();
    match find_last_dot(&chars) {
        Some(d) => {
            if d == 0 || (n == 2 && chars[0] == '.' && chars[1] == '.') {
                proof {
                    if d != 0 {
                        assert(chars@ =~= seq!['.', '.']);
                    }
                }
                (name.to_owned(), None)
            } else {
                proof {
                    assert(chars@ != seq!['.', '.']) by {
                        if chars@ == seq!['.', '.'] {
                            assert(chars@.len() == 2);
                        }
                    }
                }
                (string_of(&chars, 0, d), Some(string_of(&chars, d + 1, n)))
            }
        },
        None => (name.to_owned(), None),
    }
}

/// Whether a directory entry is a configuration file: a file whose name
/// has the extension `yaml` or `yml`.
pub fn is_yaml_file(name: &str, is_file: bool) -> (r: bool)
    ensures
        r == (is_file && yaml_name(name@)),
{
    if !is_file {
        return false;
    }
    match split_name(name).1 {
        Some(ext) => same_text(ext.as_str(), "yaml") || same_text(ext.as_str(), "yml"),
        None => false,
    }
}

/// An entry of a directory, as the caller found it.
#[derive(Debug, PartialEq)]
pub struct DirEntry {
    /// The file name, without the directories above it.
    pub name: String,
    /// Whether the entry is a regular file.
    pub is_file: bool,
    /// The text of the file; `None` where it could not be read.
    pub content: Option<String>,
}

/// A project's directory: its name and its entries.
#[derive(Debug, PartialEq)]
pub struct ProjectDir {
    pub name: String,
    pub entries: Vec<DirEntry>,
}

/// The configuration directory: the project directories under `projects`
/// and the entries of `shared`.
#[derive(Debug, PartialEq)]
pub struct ConfigDir {
    pub projects: Vec<ProjectDir>,
    pub shared: Vec<DirEntry>,
}

/// Model of a [`DirEntry`].
pub struct EntryView {
    pub name: Seq<char>,
    pub is_file: bool,
    pub content: Option<Seq<char>>,
}

/// Model of a [`ProjectDir`].
pub struct ProjectDirView {
    pub name: Seq<char>,
    pub entries: Seq<EntryView>,
}

/// Model of a [`ConfigDir`].
pub struct ConfigDirView {
    pub projects: Seq<ProjectDirView>,
    pub shared: Seq<EntryView>,
}

impl View for DirEntry {
    type V = EntryView;

    open spec fn view(&self) -> EntryView {
        EntryView { name: self.name@, is_file: self.is_file, content: text_of(self.content) }
    }
}

impl View for ProjectDir {
    type V = ProjectDirView;

    open spec fn view(&self) -> ProjectDirView {
        ProjectDirView { name: self.name@, entries: lift(self.entries@) }
    }
}

impl View for ConfigDir {
    type V = ConfigDirView;

    open spec fn view(&self) -> ConfigDirView {
        ConfigDirView { projects: lift(self.projects@), shared: lift(self.shared@) }
    }
}

/// What a project's `project.yaml` holds.
#[derive(Debug, PartialEq)]
pub struct ProjectMeta {
    pub description: Option<String>,
    pub api_keys: Vec<String>,
}

/// Model of a [`ProjectMeta`].
pub struct MetaView {
    pub description: Option<Seq<char>>,
    pub api_keys: Seq<Seq<char>>,
}

/// The tokens of a list of strings.
pub open spec fn texts(s: Seq<String>) -> Seq<Seq<char>> {
    Seq::new(s.len(), |i: int| s[i]@)
}

impl View for ProjectMeta {
    type V = MetaView;

    open spec fn view(&self) -> MetaView {
        MetaView { description: text_of(self.description), api_keys: texts(self.api_keys@) }
    }
}

impl MetaView {
    /// No description and no keys.
    pub open spec fn empty() -> MetaView {
        MetaView { description: None, api_keys: Seq::empty() }
    }
}

/// The tokens of a list of key entries, each a map with a string `key`;
/// `None` where an entry has another shape.
pub open spec fn key_tokens(entries: Seq<JsonView>) -> Option<Seq<Seq<char>>>
    decreases entries.len(),
{
    if entries.len() == 0 {
        Some(Seq::empty())
    } else {
        match (key_tokens(entries.drop_last()), entries.last().field("key"@)) {
            (Some(front), Some(JsonView::String(token))) => Some(front.push(token)),
            _ => None,
        }
    }
}

/// The metadata that a converted `project.yaml` holds: a map with an
/// optional string `description` and an optional list `api_keys` of maps
/// with a string `key`. `None` where the document has another shape.
pub open spec fn meta_in(document: JsonView) -> Option<MetaView> {
    match document {
        JsonView::Object(_) => match (
            as_optional_text(document.field("description"@)),
            document.field("api_keys"@),
        ) {
            (Some(description), None) => Some(
                MetaView { description: description, api_keys: Seq::empty() },
            ),
            (Some(description), Some(JsonView::Null)) => Some(
                MetaView { description: description, api_keys: Seq::empty() },
            ),
            (Some(description), Some(JsonView::Array(entries))) => match key_tokens(entries) {
                Some(tokens) => Some(MetaView { description: description, api_keys: tokens }),
                None => None,
            },
            _ => None,
        },
        _ => None,
    }
}

/// The metadata of a project, from the text of its `project.yaml`: nothing
/// where there is no text, the text is no YAML document, or the document
/// has not the shape of the metadata.
pub open spec fn meta_of(content: Option<Seq<char>>) -> MetaView {
    match content {
        Some(text) => match parsed_yaml(text) {
            Some(node) => match meta_in(converted(node)) {
                Some(meta) => meta,
                None => MetaView::empty(),
            },
            None => MetaView::empty(),
        },
        None => MetaView::empty(),
    }
}

/// The environment that a directory entry holds: the entry is a YAML file
/// whose text is a mapping; its stem names the environment. Under a
/// project, the stem `project` is reserved.
pub open spec fn env_in(entry: EntryView, reserved: bool) -> Option<EnvView> {
    if entry.is_file && yaml_name(entry.name) && !(reserved && stem(entry.name) == "project"@) {
        match entry.content {
            Some(text) => match yaml_items(text) {
                Some(items) => Some(EnvView { name: stem(entry.name), items: items }),
                None => None,
            },
            None => None,
        }
    } else {
        None
    }
}

/// The environments that the entries of a directory hold, in the order of
/// the entries; of two files with one stem the later takes the place of
/// the earlier. An entry that holds no environment is left out.
pub open spec fn envs_in(entries: Seq<EntryView>, reserved: bool) -> Seq<EnvView>
    decreases entries.len(),
{
    if entries.len() == 0 {
        Seq::empty()
    } else {
        let front = envs_in(entries.drop_last(), reserved);
        match env_in(entries.last(), reserved) {
            Some(env) => upsert(front, env),
            None => front,
        }
    }
}

/// The text of the first entry named `project.yaml` that could be read,
/// searching from `from`.
pub open spec fn meta_content(entries: Seq<EntryView>, from: int) -> Option<Seq<char>>
    decreases entries.len() - from,
{
    if from < 0 || from >= entries.len() {
        None
    } else if entries[from].name == "project.yaml"@ {
        entries[from].content
    } else {
        meta_content(entries, from + 1)
    }
}

/// The project that a project directory holds.
pub open spec fn project_in(dir: ProjectDirView) -> ProjectView {
    ProjectView {
        name: dir.name,
        description: meta_of(meta_content(dir.entries, 0)).description,
        environments: envs_in(dir.entries, true),
    }
}

/// Tokens bound to a project as API keys.
pub open spec fn bound(tokens: Seq<Seq<char>>, project: Seq<char>) -> Seq<ApiKeyView> {
    Seq::new(tokens.len(), |i: int| ApiKeyView { key: tokens[i], project: project })
}

/// The projects that a list of project directories holds; of two
/// directories with one name the later takes the place of the earlier.
pub open spec fn projects_in(dirs: Seq<ProjectDirView>) -> Seq<ProjectView>
    decreases dirs.len(),
{
    if dirs.len() == 0 {
        Seq::empty()
    } else {
        upsert(projects_in(dirs.drop_last()), project_in(dirs.last()))
    }
}

/// The API keys that a list of project directories holds: each project's
/// tokens, bound to it; a later directory of the same name replaces the
/// keys of the earlier.
pub open spec fn keys_in(dirs: Seq<ProjectDirView>) -> Seq<ApiKeyView>
    decreases dirs.len(),
{
    if dirs.len() == 0 {
        Seq::empty()
    } else {
        keys_kept(keys_in(dirs.drop_last()), dirs.last().name) + bound(
            meta_of(meta_content(dirs.last().entries, 0)).api_keys,
            dirs.last().name,
        )
    }
}

/// The tree that a configuration directory holds; the empty tree where
/// the directory does not exist.
pub open spec fn tree_of(dir: Option<ConfigDirView>) -> StateView {
    match dir {
        Some(d) => StateView {
            projects: projects_in(d.projects),
            shared: envs_in(d.shared, false),
            api_keys: keys_in(d.projects),
        },
        None => StateView::empty(),
    }
}

/// Every element of a list with one element laid over it is an element
/// of the list or the new element.
pub proof fn lemma_upsert_elements<T: Keyed>(acc: Seq<T>, x: T, i: int)
    requires
        0 <= i < upsert(acc, x).len(),
    ensures
        upsert(acc, x)[i] == x || (0 <= i < acc.len() && upsert(acc, x)[i] == acc[i]),
        upsert(acc, x).len() >= acc.len(),
{
    if has_key(acc, x.key()) {
        lemma_position(acc, x.key());
    }
}

/// The environments that the entries of a directory hold are well formed:
/// no name twice, and no key twice within an environment.
pub proof fn lemma_envs_in_wf(entries: Seq<EntryView>, reserved: bool)
    ensures
        envs_wf(envs_in(entries, reserved)),
    decreases entries.len(),
{
    if entries.len() > 0 {
        let front = envs_in(entries.drop_last(), reserved);
        lemma_envs_in_wf(entries.drop_last(), reserved);
        match env_in(entries.last(), reserved) {
            Some(env) => {
                lemma_upsert(front, env, env.name);
                lemma_yaml_items_distinct(entries.last().content->0);
                let all = upsert(front, env);
                assert forall|i: int| 0 <= i < all.len() implies (#[trigger] all[i]).wf() by {
                    lemma_upsert_elements(front, env, i);
                    if all[i] != env {
                        assert(front[i].wf());
                    }
                }
            },
            None => {},
        }
    }
}

/// The projects that a list of project directories holds are well formed,
/// and every API key that it holds is bound to one of them.
pub proof fn lemma_projects_in_wf(dirs: Seq<ProjectDirView>)
    ensures
        distinct_keys(projects_in(dirs)),
        forall|i: int| 0 <= i < projects_in(dirs).len() ==> (#[trigger] projects_in(dirs)[i]).wf(),
        forall|i: int|
            0 <= i < keys_in(dirs).len() ==> has_key(
                projects_in(dirs),
                (#[trigger] keys_in(dirs)[i]).project,
            ),
    decreases dirs.len(),
{
    if dirs.len() > 0 {
        let front = dirs.drop_last();
        lemma_projects_in_wf(front);
        let before = projects_in(front);
        let project = project_in(dirs.last());
        let after = upsert(before, project);
        lemma_upsert(before, project, project.name);
        lemma_envs_in_wf(dirs.last().entries, true);
        assert forall|i: int| 0 <= i < after.len() implies (#[trigger] after[i]).wf() by {
            lemma_upsert_elements(before, project, i);
            if after[i] != project {
                assert(before[i].wf());
            }
        }
        let kept = keys_kept(keys_in(front), dirs.last().name);
        let fresh = bound(meta_of(meta_content(dirs.last().entries, 0)).api_keys, dirs.last().name);
        lemma_keys_kept(keys_in(front), dirs.last().name);
        assert forall|i: int| 0 <= i < keys_in(dirs).len() implies has_key(
            after,
            (#[trigger] keys_in(dirs)[i]).project,
        ) by {
            let key = keys_in(dirs)[i];
            if i < kept.len() {
                assert(key == kept[i]);
                assert(keys_in(front).contains(key));
                let j = choose|j: int| 0 <= j < keys_in(front).len() && keys_in(front)[j] == key;
                assert(has_key(before, keys_in(front)[j].project));
                lemma_upsert(before, project, key.project);
            } else {
                assert(key == fresh[i - kept.len()]);
                lemma_upsert(before, project, key.project);
            }
        }
    }
}

/// The tree that a configuration directory holds keeps the invariants of
/// the tree.
pub proof fn lemma_tree_of_wf(dir: Option<ConfigDirView>)
    ensures
        tree_of(dir).wf(),
{
    match dir {
        Some(d) => {
            lemma_projects_in_wf(d.projects);
            lemma_envs_in_wf(d.shared, false);
        },
        None => {},
    }
}

/// The tokens of a list of key entries.
fn read_tokens(entries: &Vec<ConfigValue>) -> (r: Option<Vec<String>>)
    ensures
        (match r {
            Some(tokens) => Some(texts(tokens@)),
            None => None,
        }) == key_tokens(value_views(entries@)),
{
    let ghost all = value_views(entries@);
    let mut out: Vec<String> = Vec::new();
    let mut i: usize = 0;
    assert(all.take(0) =~= Seq::empty());
    assert(texts(out@) =~= Seq::empty());
    while i < entries.len()
        invariant
            i <= entries.len(),
            all == value_views(entries@),
            key_tokens(all.take(i as int)) == Some(texts(out@)),
        decreases entries.len() - i,
    {
        proof {
            assert(all.take(i as int + 1).drop_last() =~= all.take(i as int));
            assert(all.take(i as int + 1).last() == entries@[i as int]@);
        }
        match entries[i].field("key") {
            Some(ConfigValue::String(token)) => {
                let ghost before = texts(out@);
                out.push(token.clone());
                assert(texts(out@) =~= before.push(token@));
            },
            _ => {
                proof {
                    lemma_tokens_prefix(all, i as int + 1);
                }
                return None;
            },
        }
        i += 1;
    }
    assert(all.take(entries.len() as int) =~= all);
    Some(out)
}

/// Where a front part of a list of key entries is malformed, the whole
/// list is.
proof fn lemma_tokens_prefix(entries: Seq<JsonView>, n: int)
    requires
        0 <= n <= entries.len(),
        key_tokens(entries.take(n)) is None,
    ensures
        key_tokens(entries) is None,
    decreases entries.len() - n,
{
    if n < entries.len() {
        assert(entries.take(n + 1).drop_last() =~= entries.take(n));
        lemma_tokens_prefix(entries, n + 1);
    } else {
        assert(entries.take(n) =~= entries);
    }
}

/// The metadata that a converted `project.yaml` holds.
pub fn read_meta(document: &ConfigValue) -> (r: Option<ProjectMeta>)
    ensures
        (match r {
            Some(meta) => Some(meta@),
            None => None,
        }) == meta_in(document@),
{
    match document {
        ConfigValue::Object(_) => {},
        _ => {
            return None;
        },
    }
    let description = match document.field("description") {
        None => None,
        Some(ConfigValue::Null) => None,
        Some(ConfigValue::String(s)) => Some(s.clone()),
        Some(_) => {
            return None;
        },
    };
    match document.field("api_keys") {
        None => {
            let meta = ProjectMeta { description: description, api_keys: Vec::new() };
            assert(meta@.api_keys =~= Seq::empty());
            Some(meta)
        },
        Some(ConfigValue::Null) => {
            let meta = ProjectMeta { description: description, api_keys: Vec::new() };
            assert(meta@.api_keys =~= Seq::empty());
            Some(meta)
        },
        Some(ConfigValue::Array(entries)) => {
            proof {
                lemma_array_view(*entries);
            }
            match read_tokens(entries) {
                Some(tokens) => Some(ProjectMeta { description: description, api_keys: tokens }),
                None => None,
            }
        },
        Some(_) => None,
    }
}

/// The metadata of a project, from the text of its `project.yaml`; without
/// description and keys where there is no text or the text is malformed.
pub fn load_project_meta(content: Option<&str>) -> (r: ProjectMeta)
    ensures
        r@ == meta_of(str_of(content)),
{
    let nothing = ProjectMeta { description: None, api_keys: Vec::new() };
    assert(nothing@.api_keys =~= Seq::empty());
    let text = match content {
        Some(t) => t,
        None => {
            return nothing;
        },
    };
    match yaml_parse(text) {
        Ok(node) => match read_meta(&yaml_to_json(&node)) {
            Some(meta) => meta,
            None => nothing,
        },
        Err(_) => nothing,
    }
}

/// The environment that a directory entry holds.
fn load_env(entry: &DirEntry, reserved: bool) -> (r: Option<Environment>)
    ensures
        (match r {
            Some(env) => Some(env@),
            None => None,
        }) == env_in(entry@, reserved),
{
    if !is_yaml_file(entry.name.as_str(), entry.is_file) {
        return None;
    }
    let name = split_name(entry.name.as_str()).0;
    if reserved && same_text(name.as_str(), "project") {
        return None;
    }
    let text = match &entry.content {
        Some(t) => t,
        None => {
            return None;
        },
    };
    match load_yaml_map(text.as_str()) {
        Some(items) => Some(Environment { name: name, config_items: items }),
        None => None,
    }
}

/// The environments that the entries of a directory hold.
fn load_envs(entries: &Vec<DirEntry>, reserved: bool) -> (r: Vec<Environment>)
    ensures
        lift(r@) == envs_in(lift(entries@), reserved),
{
    let ghost all = lift(entries@);
    let mut out: Vec<Environment> = Vec::new();
    let mut i: usize = 0;
    assert(all.take(0) =~= Seq::empty());
    assert(lift(out@) =~= Seq::empty());
    while i < entries.len()
        invariant
            i <= entries.len(),
            all == lift(entries@),
            lift(out@) == envs_in(all.take(i as int), reserved),
        decreases entries.len() - i,
    {
        proof {
            assert(all.take(i as int + 1).drop_last() =~= all.take(i as int));
            assert(all.take(i as int + 1).last() == entries@[i as int]@);
        }
        match load_env(&entries[i], reserved) {
            Some(env) => match find_environment(&out, env.name.as_str()) {
                Some(at) => {
                    let ghost before = out@;
                    out[at] = env;
                    assert(lift(out@) =~= lift(before).update(at as int, env@));
                },
                None => {
                    push_lifted(&mut out, env);
                },
            },
            None => {},
        }
        i += 1;
    }
    assert(all.take(entries.len() as int) =~= all);
    out
}

/// The environments of a project's directory: one for each YAML file that
/// holds a mapping, but for `project`.
pub fn load_env_configs(entries: &Vec<DirEntry>) -> (r: Vec<Environment>)
    ensures
        lift(r@) == envs_in(lift(entries@), true),
{
    load_envs(entries, true)
}

/// The environments of the shared directory: one for each YAML file that
/// holds a mapping.
pub fn load_shared(entries: &Vec<DirEntry>) -> (r: Vec<Environment>)
    ensures
        lift(r@) == envs_in(lift(entries@), false),
{
    load_envs(entries, false)
}

/// The text of the first entry named `project.yaml`.
fn find_meta(entries: &Vec<DirEntry>) -> (r: Option<&str>)
    ensures
        str_of(r) == meta_content(lift(entries@), 0),
{
    let mut i: usize = 0;
    while i < entries.len()
        invariant
            i <= entries.len(),
            meta_content(lift(entries@), 0) == meta_content(lift(entries@), i as int),
        decreases entries.len() - i,
    {
        if same_text(entries[i].name.as_str(), "project.yaml") {
            return match &entries[i].content {
                Some(t) => Some(t.as_str()),
                None => None,
            };
        }
        i += 1;
    }
    None
}

/// Removes the API keys bound to a project.
fn drop_keys(keys: Vec<ApiKey>, project: &str) -> (r: Vec<ApiKey>)
    ensures
        lift(r@) == keys_kept(lift(keys@), project@),
{
    let needle = project.to_owned();
    let ghost all = lift(keys@);
    let mut kept: Vec<ApiKey> = Vec::new();
    let mut i: usize = 0;
    assert(all.take(0) =~= Seq::empty());
    assert(lift(kept@) =~= Seq::empty());
    while i < keys.len()
        invariant
            i <= keys.len(),
            needle@ == project@,
            all == lift(keys@),
            lift(kept@) == keys_kept(all.take(i as int), project@),
        decreases keys.len() - i,
    {
        proof {
            assert(all.take(i as int + 1).drop_last() =~= all.take(i as int));
            assert(all.take(i as int + 1).last() == keys@[i as int]@);
        }
        if !(keys[i].project == needle) {
            push_lifted(&mut kept, keys[i].clone());
        }
        i += 1;
    }
    assert(all.take(keys.len() as int) =~= all);
    kept
}

/// The projects and the API keys that a list of project directories
/// holds.
pub fn load_projects(dirs: &Vec<ProjectDir>) -> (r: (Vec<Project>, Vec<ApiKey>))
    ensures
        lift(r.0@) == projects_in(lift(dirs@)),
        lift(r.1@) == keys_in(lift(dirs@)),
{
    let ghost all = lift(dirs@);
    let mut projects: Vec<Project> = Vec::new();
    let mut keys: Vec<ApiKey> = Vec::new();
    let mut i: usize = 0;
    assert(all.take(0) =~= Seq::empty());
    assert(lift(projects@) =~= Seq::empty());
    assert(lift(keys@) =~= Seq::empty());
    while i < dirs.len()
        invariant
            i <= dirs.len(),
            all == lift(dirs@),
            lift(projects@) == projects_in(all.take(i as int)),
            lift(keys@) == keys_in(all.take(i as int)),
        decreases dirs.len() - i,
    {
        proof {
            assert(all.take(i as int + 1).drop_last() =~= all.take(i as int));
            assert(all.take(i as int + 1).last() == dirs@[i as int]@);
        }
        let dir = &dirs[i];
        let meta = load_project_meta(find_meta(&dir.entries));
        let project = Project {
            name: dir.name.clone(),
            description: meta.description,
            environments: load_env_configs(&dir.entries),
        };
        match find_project(&projects, dir.name.as_str()) {
            Some(at) => {
                let ghost before = projects@;
                projects[at] = project;
                assert(lift(projects@) =~= lift(before).update(at as int, project@));
            },
            None => {
                push_lifted(&mut projects, project);
            },
        }
        let mut previous: Vec<ApiKey> = Vec::new();
        core::mem::swap(&mut keys, &mut previous);
        keys = drop_keys(previous, dir.name.as_str());
        let ghost kept = lift(keys@);
        let ghost tokens = texts(meta.api_keys@);
        let mut k: usize = 0;
        assert(bound(tokens, dir.name@).take(0) =~= Seq::empty());
        assert(kept + Seq::<ApiKeyView>::empty() =~= kept);
        while k < meta.api_keys.len()
            invariant
                k <= meta.api_keys.len(),
                tokens == texts(meta.api_keys@),
                lift(keys@) == kept + bound(tokens, dir.name@).take(k as int),
            decreases meta.api_keys.len() - k,
        {
            let key = ApiKey { key: meta.api_keys[k].clone(), project: dir.name.clone() };
            push_lifted(&mut keys, key);
            assert(kept + bound(tokens, dir.name@).take(k as int + 1) =~= (kept + bound(
                tokens,
                dir.name@,
            ).take(k as int)).push(key@));
            k += 1;
        }
        assert(bound(tokens, dir.name@).take(meta.api_keys.len() as int) =~= bound(
            tokens,
            dir.name@,
        ));
        i += 1;
    }
    assert(all.take(dirs.len() as int) =~= all);
    (projects, keys)
}

/// The model of an optional directory listing.
pub open spec fn dir_of(dir: Option<&ConfigDir>) -> Option<ConfigDirView> {
    match dir {
        Some(d) => Some(d@),
        None => None,
    }
}

/// The tree that a configuration directory holds; the empty tree where
/// the directory does not exist.
pub fn load_tree(dir: Option<&ConfigDir>) -> (r: ConfigState)
    ensures
        r@ == tree_of(dir_of(dir)),
        r@.wf(),
{
    proof {
        lemma_tree_of_wf(dir_of(dir));
    }
    match dir {
        Some(d) => {
            let (projects, api_keys) = load_projects(&d.projects);
            ConfigState {
                projects: projects,
                shared_group: SharedGroup { environments: load_shared(&d.shared) },
                api_keys: api_keys,
            }
        },
        None => ConfigState::empty(),
    }
}

/// The directory store: the tree that was read from a configuration
/// directory, and the path of that directory. It is read-only.
#[derive(Debug)]
pub struct Storage {
    state: ConfigState,
    config_dir: String,
}

impl View for Storage {
    type V = StateView;

    closed spec fn view(&self) -> StateView {
        self.state@
    }
}

impl Storage {
    /// The path of the directory that the tree was read from.
    pub closed spec fn path(&self) -> Seq<char> {
        self.config_dir@
    }

    /// Builds the tree from the listing of a configuration directory;
    /// `None` stands for a directory that does not exist, and gives the
    /// empty tree. A file that could not be read or does not hold a YAML
    /// mapping is left out; loading never fails.
    pub fn load(config_dir: &str, dir: Option<&ConfigDir>) -> (r: Result<
        Storage,
        crate::error::ConfigError,
    >)
        ensures
            r matches Ok(s) && s@ == tree_of(dir_of(dir)) && s.path() == config_dir@,
            r matches Ok(s) ==> s@.wf(),
    {
        Ok(Storage { state: load_tree(dir), config_dir: config_dir.to_owned() })
    }

    /// The tree.
    pub fn state(&self) -> (r: &ConfigState)
        ensures
            r@ == self@,
    {
        &self.state
    }

    /// The path of the directory that the tree was read from.
    pub fn config_dir(&self) -> (r: &str)
        ensures
            r@ == self.path(),
    {
        self.config_dir.as_str()
    }
}

} // verus!
