//! The configuration tree: projects, environments, configuration items, the
//! shared group and API keys, with their mathematical models.
use crate::value::{ConfigValue, JsonView};
use vstd::prelude::*;

verus! {

/// An API key: an opaque token that authorizes exactly one project.
#[derive(Debug, PartialEq)]
pub struct ApiKey {
    pub key: String,
    pub project: String,
}

/// A configuration item: a key, unique within its environment, and a value.
#[derive(Debug, PartialEq)]
pub struct ConfigItem {
    pub key: String,
    pub value: ConfigValue,
}

/// An environment: a named list of configuration items.
#[derive(Debug, PartialEq)]
pub struct Environment {
    pub name: String,
    pub config_items: Vec<ConfigItem>,
}

/// A project: a named configuration scope that owns environments.
#[derive(Debug, PartialEq)]
pub struct Project {
    pub name: String,
    pub description: Option<String>,
    pub environments: Vec<Environment>,
}

/// The shared tier: environments whose items lie beneath every project's
/// environment of the same name.
#[derive(Debug, PartialEq)]
pub struct SharedGroup {
    pub environments: Vec<Environment>,
}

/// The whole configuration tree: the unit of persistence and of replacement.
#[derive(Debug, PartialEq)]
pub struct ConfigState {
    pub projects: Vec<Project>,
    pub shared_group: SharedGroup,
    pub api_keys: Vec<ApiKey>,
}

/// Model of an [`ApiKey`].
pub struct ApiKeyView {
    pub key: Seq<char>,
    pub project: Seq<char>,
}

/// Model of a [`ConfigItem`].
pub struct ItemView {
    pub key: Seq<char>,
    pub value: JsonView,
}

/// Model of an [`Environment`].
pub struct EnvView {
    pub name: Seq<char>,
    pub items: Seq<ItemView>,
}

/// Model of a [`Project`].
pub struct ProjectView {
    pub name: Seq<char>,
    pub description: Option<Seq<char>>,
    pub environments: Seq<EnvView>,
}

/// Model of a [`ConfigState`].
pub struct StateView {
    pub projects: Seq<ProjectView>,
    pub shared: Seq<EnvView>,
    pub api_keys: Seq<ApiKeyView>,
}

/// The models of a list of values, element by element.
pub open spec fn lift<T: View>(s: Seq<T>) -> Seq<T::V> {
    Seq::new(s.len(), |i: int| s[i]@)
}

/// The model of an optional string.
pub open spec fn text_of(s: Option<String>) -> Option<Seq<char>> {
    match s {
        Some(t) => Some(t@),
        None => None,
    }
}

/// The model of an optional string slice.
pub open spec fn str_of(s: Option<&str>) -> Option<Seq<char>> {
    match s {
        Some(t) => Some(t@),
        None => None,
    }
}

impl View for ApiKey {
    type V = ApiKeyView;

    open spec fn view(&self) -> ApiKeyView {
        ApiKeyView { key: self.key@, project: self.project@ }
    }
}

impl View for ConfigItem {
    type V = ItemView;

    open spec fn view(&self) -> ItemView {
        ItemView { key: self.key@, value: self.value@ }
    }
}

impl View for Environment {
    type V = EnvView;

    open spec fn view(&self) -> EnvView {
        EnvView { name: self.name@, items: lift(self.config_items@) }
    }
}

impl View for Project {
    type V = ProjectView;

    open spec fn view(&self) -> ProjectView {
        ProjectView {
            name: self.name@,
            description: text_of(self.description),
            environments: lift(self.environments@),
        }
    }
}

impl View for SharedGroup {
    type V = Seq<EnvView>;

    open spec fn view(&self) -> Seq<EnvView> {
        lift(self.environments@)
    }
}

impl View for ConfigState {
    type V = StateView;

    open spec fn view(&self) -> StateView {
        StateView {
            projects: lift(self.projects@),
            shared: self.shared_group@,
            api_keys: lift(self.api_keys@),
        }
    }
}

/// A model that is found by a textual key: a project or an environment by
/// its name, an item or an API key by its key.
pub trait Keyed {
    spec fn key(self) -> Seq<char>;
}

impl Keyed for ApiKeyView {
    open spec fn key(self) -> Seq<char> {
        self.key
    }
}

impl Keyed for ItemView {
    open spec fn key(self) -> Seq<char> {
        self.key
    }
}

impl Keyed for EnvView {
    open spec fn key(self) -> Seq<char> {
        self.name
    }
}

impl Keyed for ProjectView {
    open spec fn key(self) -> Seq<char> {
        self.name
    }
}

/// Some element of `s` has the key `k`.
pub open spec fn has_key<T: Keyed>(s: Seq<T>, k: Seq<char>) -> bool {
    exists|i: int| 0 <= i < s.len() && (#[trigger] s[i]).key() == k
}

/// `i` is the first index of `s` at which the key is `k`.
pub open spec fn first_at<T: Keyed>(s: Seq<T>, k: Seq<char>, i: int) -> bool {
    &&& 0 <= i < s.len()
    &&& s[i].key() == k
    &&& forall|j: int| 0 <= j < i ==> (#[trigger] s[j]).key() != k
}

/// The first index of `s` at which the key is `k`, where there is one.
pub open spec fn position<T: Keyed>(s: Seq<T>, k: Seq<char>) -> int {
    choose|i: int| first_at(s, k, i)
}

/// The first element of `s` with the key `k`, where there is one.
pub open spec fn lookup<T: Keyed>(s: Seq<T>, k: Seq<char>) -> T {
    s[position(s, k)]
}

/// No two elements of `s` have the same key.
pub open spec fn distinct_keys<T: Keyed>(s: Seq<T>) -> bool {
    forall|i: int, j: int| 0 <= i < j < s.len() ==> (#[trigger] s[i]).key() != (#[trigger] s[j]).key()
}

/// A first index is the position, and shows that the key is present.
pub proof fn lemma_first_at<T: Keyed>(s: Seq<T>, k: Seq<char>, i: int)
    requires
        first_at(s, k, i),
    ensures
        has_key(s, k),
        position(s, k) == i,
{
    let p = position(s, k);
    assert(first_at(s, k, p));
    if p < i {
        assert(s[p].key() != k);
    }
    if i < p {
        assert(s[i].key() != k);
    }
}

/// A key that is present has a first index.
pub proof fn lemma_position<T: Keyed>(s: Seq<T>, k: Seq<char>)
    requires
        has_key(s, k),
    ensures
        first_at(s, k, position(s, k)),
{
    let w = choose|i: int| 0 <= i < s.len() && (#[trigger] s[i]).key() == k;
    lemma_first_below(s, k, w);
}

/// Below or at an index that holds the key there is a first index.
proof fn lemma_first_below<T: Keyed>(s: Seq<T>, k: Seq<char>, w: int)
    requires
        0 <= w < s.len(),
        s[w].key() == k,
    ensures
        exists|i: int| first_at(s, k, i),
    decreases w,
{
    if exists|j: int| 0 <= j < w && (#[trigger] s[j]).key() == k {
        let j = choose|j: int| 0 <= j < w && (#[trigger] s[j]).key() == k;
        lemma_first_below(s, k, j);
    } else {
        assert(first_at(s, k, w));
    }
}

impl EnvView {
    /// No key occurs twice.
    pub open spec fn wf(self) -> bool {
        distinct_keys(self.items)
    }
}

/// In a list of environments no name occurs twice, and no key occurs twice
/// within an environment.
pub open spec fn envs_wf(envs: Seq<EnvView>) -> bool {
    &&& distinct_keys(envs)
    &&& forall|i: int| 0 <= i < envs.len() ==> (#[trigger] envs[i]).wf()
}

impl ProjectView {
    /// The project holds an environment with this name.
    pub open spec fn has_environment(self, name: Seq<char>) -> bool {
        has_key(self.environments, name)
    }

    /// The environment with this name, where there is one.
    pub open spec fn environment(self, name: Seq<char>) -> EnvView {
        lookup(self.environments, name)
    }

    /// Environment names are unique, and so are the keys within each.
    pub open spec fn wf(self) -> bool {
        envs_wf(self.environments)
    }
}

impl StateView {
    /// The tree without projects, shared environments or API keys.
    pub open spec fn empty() -> StateView {
        StateView { projects: Seq::empty(), shared: Seq::empty(), api_keys: Seq::empty() }
    }

    /// The tree holds a project with this name.
    pub open spec fn has_project(self, name: Seq<char>) -> bool {
        has_key(self.projects, name)
    }

    /// The project with this name, where there is one.
    pub open spec fn project(self, name: Seq<char>) -> ProjectView {
        lookup(self.projects, name)
    }

    /// The shared group holds an environment with this name.
    pub open spec fn has_shared(self, name: Seq<char>) -> bool {
        has_key(self.shared, name)
    }

    /// The shared environment with this name, where there is one.
    pub open spec fn shared_env(self, name: Seq<char>) -> EnvView {
        lookup(self.shared, name)
    }

    /// The structural invariants of the tree: project names are unique;
    /// environment names are unique within each project and within the
    /// shared group; item keys are unique within each environment; every API
    /// key is bound to a project of the tree.
    pub open spec fn wf(self) -> bool {
        &&& distinct_keys(self.projects)
        &&& forall|i: int| 0 <= i < self.projects.len() ==> (#[trigger] self.projects[i]).wf()
        &&& envs_wf(self.shared)
        &&& forall|i: int|
            0 <= i < self.api_keys.len() ==> self.has_project((#[trigger] self.api_keys[i]).project)
    }
}

impl Clone for ApiKey {
    fn clone(&self) -> (r: ApiKey)
        ensures
            r@ == self@,
    {
        ApiKey { key: self.key.clone(), project: self.project.clone() }
    }
}

impl Clone for ConfigItem {
    fn clone(&self) -> (r: ConfigItem)
        ensures
            r@ == self@,
    {
        ConfigItem { key: self.key.clone(), value: self.value.clone() }
    }
}

/// A deep copy of a list of items.
pub fn clone_items(items: &Vec<ConfigItem>) -> (r: Vec<ConfigItem>)
    ensures
        lift(r@) == lift(items@),
{
    let mut out: Vec<ConfigItem> = Vec::new();
    let mut i: usize = 0;
    while i < items.len()
        invariant
            i <= items.len(),
            out.len() == i,
            forall|j: int| 0 <= j < i ==> out[j]@ == items[j]@,
        decreases items.len() - i,
    {
        out.push(items[i].clone());
        i += 1;
    }
    assert(lift(out@) =~= lift(items@));
    out
}

impl Clone for Environment {
    fn clone(&self) -> (r: Environment)
        ensures
            r@ == self@,
    {
        Environment { name: self.name.clone(), config_items: clone_items(&self.config_items) }
    }
}

/// A deep copy of a list of environments.
pub fn clone_environments(envs: &Vec<Environment>) -> (r: Vec<Environment>)
    ensures
        lift(r@) == lift(envs@),
{
    let mut out: Vec<Environment> = Vec::new();
    let mut i: usize = 0;
    while i < envs.len()
        invariant
            i <= envs.len(),
            out.len() == i,
            forall|j: int| 0 <= j < i ==> out[j]@ == envs[j]@,
        decreases envs.len() - i,
    {
        out.push(envs[i].clone());
        i += 1;
    }
    assert(lift(out@) =~= lift(envs@));
    out
}

impl Clone for Project {
    fn clone(&self) -> (r: Project)
        ensures
            r@ == self@,
    {
        let description = match &self.description {
            Some(d) => Some(d.clone()),
            None => None,
        };
        Project {
            name: self.name.clone(),
            description,
            environments: clone_environments(&self.environments),
        }
    }
}

impl Clone for SharedGroup {
    fn clone(&self) -> (r: SharedGroup)
        ensures
            r@ == self@,
    {
        SharedGroup { environments: clone_environments(&self.environments) }
    }
}

/// A deep copy of a list of projects.
pub fn clone_projects(projects: &Vec<Project>) -> (r: Vec<Project>)
    ensures
        lift(r@) == lift(projects@),
{
    let mut out: Vec<Project> = Vec::new();
    let mut i: usize = 0;
    while i < projects.len()
        invariant
            i <= projects.len(),
            out.len() == i,
            forall|j: int| 0 <= j < i ==> out[j]@ == projects[j]@,
        decreases projects.len() - i,
    {
        out.push(projects[i].clone());
        i += 1;
    }
    assert(lift(out@) =~= lift(projects@));
    out
}

/// A deep copy of a list of API keys.
pub fn clone_api_keys(keys: &Vec<ApiKey>) -> (r: Vec<ApiKey>)
    ensures
        lift(r@) == lift(keys@),
{
    let mut out: Vec<ApiKey> = Vec::new();
    let mut i: usize = 0;
    while i < keys.len()
        invariant
            i <= keys.len(),
            out.len() == i,
            forall|j: int| 0 <= j < i ==> out[j]@ == keys[j]@,
        decreases keys.len() - i,
    {
        out.push(keys[i].clone());
        i += 1;
    }
    assert(lift(out@) =~= lift(keys@));
    out
}

impl Clone for ConfigState {
    fn clone(&self) -> (r: ConfigState)
        ensures
            r@ == self@,
    {
        ConfigState {
            projects: clone_projects(&self.projects),
            shared_group: self.shared_group.clone(),
            api_keys: clone_api_keys(&self.api_keys),
        }
    }
}

impl ConfigState {
    /// The tree without projects, shared environments or API keys.
    pub fn empty() -> (r: ConfigState)
        ensures
            r@ == StateView::empty(),
            r@.wf(),
    {
        let r = ConfigState {
            projects: Vec::new(),
            shared_group: SharedGroup { environments: Vec::new() },
            api_keys: Vec::new(),
        };
        assert(r@.projects =~= Seq::empty());
        assert(r@.shared =~= Seq::empty());
        assert(r@.api_keys =~= Seq::empty());
        r
    }
}

/// The index of the first project with this name.
pub fn find_project(projects: &Vec<Project>, name: &str) -> (r: Option<usize>)
    ensures
        r is Some <==> has_key(lift(projects@), name@),
        r matches Some(i) ==> i < projects.len() && first_at(lift(projects@), name@, i as int)
            && position(lift(projects@), name@) == i,
{
    let needle = name.to_owned();
    let mut i: usize = 0;
    while i < projects.len()
        invariant
            i <= projects.len(),
            needle@ == name@,
            forall|j: int| 0 <= j < i ==> (#[trigger] lift(projects@)[j]).key() != name@,
        decreases projects.len() - i,
    {
        if projects[i].name == needle {
            proof {
                assert(lift(projects@)[i as int].key() == name@);
                lemma_first_at(lift(projects@), name@, i as int);
            }
            return Some(i);
        }
        i += 1;
    }
    None
}

/// The index of the first environment with this name.
pub fn find_environment(envs: &Vec<Environment>, name: &str) -> (r: Option<usize>)
    ensures
        r is Some <==> has_key(lift(envs@), name@),
        r matches Some(i) ==> i < envs.len() && first_at(lift(envs@), name@, i as int)
            && position(lift(envs@), name@) == i,
{
    let needle = name.to_owned();
    let mut i: usize = 0;
    while i < envs.len()
        invariant
            i <= envs.len(),
            needle@ == name@,
            forall|j: int| 0 <= j < i ==> (#[trigger] lift(envs@)[j]).key() != name@,
        decreases envs.len() - i,
    {
        if envs[i].name == needle {
            proof {
                assert(lift(envs@)[i as int].key() == name@);
                lemma_first_at(lift(envs@), name@, i as int);
            }
            return Some(i);
        }
        i += 1;
    }
    None
}

/// The index of the first item with this key.
pub fn find_item(items: &Vec<ConfigItem>, key: &str) -> (r: Option<usize>)
    ensures
        r is Some <==> has_key(lift(items@), key@),
        r matches Some(i) ==> i < items.len() && first_at(lift(items@), key@, i as int)
            && position(lift(items@), key@) == i,
{
    let needle = key.to_owned();
    let mut i: usize = 0;
    while i < items.len()
        invariant
            i <= items.len(),
            needle@ == key@,
            forall|j: int| 0 <= j < i ==> (#[trigger] lift(items@)[j]).key() != key@,
        decreases items.len() - i,
    {
        if items[i].key == needle {
            proof {
                assert(lift(items@)[i as int].key() == key@);
                lemma_first_at(lift(items@), key@, i as int);
            }
            return Some(i);
        }
        i += 1;
    }
    None
}

/// The index of the first API key with this token.
pub fn find_api_key(keys: &Vec<ApiKey>, key: &str) -> (r: Option<usize>)
    ensures
        r is Some <==> has_key(lift(keys@), key@),
        r matches Some(i) ==> i < keys.len() && first_at(lift(keys@), key@, i as int)
            && position(lift(keys@), key@) == i,
{
    let needle = key.to_owned();
    let mut i: usize = 0;
    while i < keys.len()
        invariant
            i <= keys.len(),
            needle@ == key@,
            forall|j: int| 0 <= j < i ==> (#[trigger] lift(keys@)[j]).key() != key@,
        decreases keys.len() - i,
    {
        if keys[i].key == needle {
            proof {
                assert(lift(keys@)[i as int].key() == key@);
                lemma_first_at(lift(keys@), key@, i as int);
            }
            return Some(i);
        }
        i += 1;
    }
    None
}

} // verus!
