//! The snapshot document: the configuration tree as one structured value
//! with the fields `projects`, `shared_group` and `api_keys`.
use crate::models::{
    lift, text_of, ApiKey, ApiKeyView, ConfigItem, ConfigState, EnvView, Environment, ItemView,
    Project, ProjectView, SharedGroup, StateView,
};
use crate::value::{
    first_value, lemma_array_view, lemma_object_view, value_views, ConfigValue, JsonView,
};
use vstd::prelude::*;

verus! {

/// A model that has a place in the snapshot document.
pub trait Encoded: Sized {
    /// The structured value that stands for the model.
    spec fn encode(self) -> JsonView;

    /// The model that a structured value stands for, if it stands for one.
    spec fn decode(v: JsonView) -> Option<Self>;

    /// Reading what was written gives the model back.
    proof fn lemma_round_trip(self)
        ensures
            Self::decode(self.encode()) == Some(self),
    ;
}

/// The values that stand for a list of models.
pub open spec fn encode_all<T: Encoded>(xs: Seq<T>) -> Seq<JsonView> {
    Seq::new(xs.len(), |i: int| xs[i].encode())
}

/// The models that a list of values stands for, if every value stands for
/// one.
pub open spec fn decode_all<T: Encoded>(vs: Seq<JsonView>) -> Option<Seq<T>>
    decreases vs.len(),
{
    if vs.len() == 0 {
        Some(Seq::empty())
    } else {
        match (decode_all::<T>(vs.drop_last()), T::decode(vs.last())) {
            (Some(front), Some(last)) => Some(front.push(last)),
            _ => None,
        }
    }
}

/// Reading a list that was written gives the list back.
pub proof fn lemma_round_trip_all<T: Encoded>(xs: Seq<T>)
    ensures
        decode_all::<T>(encode_all(xs)) == Some(xs),
    decreases xs.len(),
{
    if xs.len() == 0 {
        assert(xs =~= Seq::empty());
    } else {
        let vs = encode_all(xs);
        assert(vs.drop_last() =~= encode_all(xs.drop_last()));
        lemma_round_trip_all(xs.drop_last());
        xs.last().lemma_round_trip();
        assert(xs.drop_last().push(xs.last()) =~= xs);
    }
}

/// The text that a value holds, where it is a string.
pub open spec fn as_text(v: Option<JsonView>) -> Option<Seq<char>> {
    match v {
        Some(JsonView::String(s)) => Some(s),
        _ => None,
    }
}

/// The elements that a value holds, where it is a list.
pub open spec fn as_list(v: Option<JsonView>) -> Option<Seq<JsonView>> {
    match v {
        Some(JsonView::Array(a)) => Some(a),
        _ => None,
    }
}

/// An optional text: absent or null is no text, a string is a text,
/// anything else is malformed.
pub open spec fn as_optional_text(v: Option<JsonView>) -> Option<Option<Seq<char>>> {
    match v {
        None => Some(None),
        Some(JsonView::Null) => Some(None),
        Some(JsonView::String(s)) => Some(Some(s)),
        _ => None,
    }
}

impl Encoded for ItemView {
    open spec fn encode(self) -> JsonView {
        JsonView::Object(seq![("key"@, JsonView::String(self.key)), ("value"@, self.value)])
    }

    open spec fn decode(v: JsonView) -> Option<ItemView> {
        match (as_text(v.field("key"@)), v.field("value"@)) {
            (Some(key), Some(value)) => Some(ItemView { key: key, value: value }),
            _ => None,
        }
    }

    proof fn lemma_round_trip(self) {
        reveal_strlit("key");
        reveal_strlit("value");
        reveal_with_fuel(first_value, 3);
        assert("key"@.len() != "value"@.len());
    }
}

impl Encoded for EnvView {
    open spec fn encode(self) -> JsonView {
        JsonView::Object(
            seq![
                ("name"@, JsonView::String(self.name)),
                ("config_items"@, JsonView::Array(encode_all(self.items))),
            ],
        )
    }

    open spec fn decode(v: JsonView) -> Option<EnvView> {
        match (as_text(v.field("name"@)), as_list(v.field("config_items"@))) {
            (Some(name), Some(list)) => match decode_all::<ItemView>(list) {
                Some(items) => Some(EnvView { name: name, items: items }),
                None => None,
            },
            _ => None,
        }
    }

    proof fn lemma_round_trip(self) {
        reveal_strlit("name");
        reveal_strlit("config_items");
        reveal_with_fuel(first_value, 3);
        assert("name"@.len() != "config_items"@.len());
        lemma_round_trip_all(self.items);
    }
}

impl Encoded for ProjectView {
    open spec fn encode(self) -> JsonView {
        JsonView::Object(
            seq![
                ("name"@, JsonView::String(self.name)),
                (
                    "description"@,
                    match self.description {
                        Some(d) => JsonView::String(d),
                        None => JsonView::Null,
                    },
                ),
                ("environments"@, JsonView::Array(encode_all(self.environments))),
            ],
        )
    }

    open spec fn decode(v: JsonView) -> Option<ProjectView> {
        match (
            as_text(v.field("name"@)),
            as_optional_text(v.field("description"@)),
            as_list(v.field("environments"@)),
        ) {
            (Some(name), Some(description), Some(list)) => match decode_all::<EnvView>(list) {
                Some(envs) => Some(
                    ProjectView { name: name, description: description, environments: envs },
                ),
                None => None,
            },
            _ => None,
        }
    }

    proof fn lemma_round_trip(self) {
        reveal_strlit("name");
        reveal_strlit("description");
        reveal_strlit("environments");
        reveal_with_fuel(first_value, 4);
        assert("name"@.len() != "description"@.len());
        assert("name"@.len() != "environments"@.len());
        assert("description"@.len() != "environments"@.len());
        lemma_round_trip_all(self.environments);
    }
}

impl Encoded for ApiKeyView {
    open spec fn encode(self) -> JsonView {
        JsonView::Object(
            seq![("key"@, JsonView::String(self.key)), ("project"@, JsonView::String(self.project))],
        )
    }

    open spec fn decode(v: JsonView) -> Option<ApiKeyView> {
        match (as_text(v.field("key"@)), as_text(v.field("project"@))) {
            (Some(key), Some(project)) => Some(ApiKeyView { key: key, project: project }),
            _ => None,
        }
    }

    proof fn lemma_round_trip(self) {
        reveal_strlit("key");
        reveal_strlit("project");
        reveal_with_fuel(first_value, 3);
        assert("key"@.len() != "project"@.len());
    }
}

/// The value that stands for the shared group.
pub open spec fn encode_shared(envs: Seq<EnvView>) -> JsonView {
    JsonView::Object(seq![("environments"@, JsonView::Array(encode_all(envs)))])
}

/// The shared group that a value stands for.
pub open spec fn decode_shared(v: Option<JsonView>) -> Option<Seq<EnvView>> {
    match v {
        Some(group) => match as_list(group.field("environments"@)) {
            Some(list) => decode_all::<EnvView>(list),
            None => None,
        },
        None => None,
    }
}

impl Encoded for StateView {
    open spec fn encode(self) -> JsonView {
        JsonView::Object(
            seq![
                ("projects"@, JsonView::Array(encode_all(self.projects))),
                ("shared_group"@, encode_shared(self.shared)),
                ("api_keys"@, JsonView::Array(encode_all(self.api_keys))),
            ],
        )
    }

    open spec fn decode(v: JsonView) -> Option<StateView> {
        match (as_list(v.field("projects"@)), as_list(v.field("api_keys"@))) {
            (Some(projects), Some(keys)) => match (
                decode_all::<ProjectView>(projects),
                decode_shared(v.field("shared_group"@)),
                decode_all::<ApiKeyView>(keys),
            ) {
                (Some(projects), Some(shared), Some(api_keys)) => Some(
                    StateView { projects: projects, shared: shared, api_keys: api_keys },
                ),
                _ => None,
            },
            _ => None,
        }
    }

    proof fn lemma_round_trip(self) {
        reveal_strlit("projects");
        reveal_strlit("shared_group");
        reveal_strlit("api_keys");
        reveal_strlit("environments");
        reveal_with_fuel(first_value, 4);
        assert("projects"@.len() != "shared_group"@.len());
        assert("projects"@[0] != "api_keys"@[0]);
        assert("shared_group"@.len() != "api_keys"@.len());
        lemma_round_trip_all(self.projects);
        lemma_round_trip_all(self.shared);
        lemma_round_trip_all(self.api_keys);
    }
}

/// Writing a tree as a document and reading the document gives the tree
/// back, so that a second export equals the first.
pub proof fn law_export_import_round_trip(s: StateView)
    ensures
        StateView::decode(s.encode()) == Some(s),
        StateView::decode(s.encode())->0.encode() == s.encode(),
{
    s.lemma_round_trip();
}

/// The model of an optional tree.
pub open spec fn state_of(s: Option<ConfigState>) -> Option<StateView> {
    match s {
        Some(t) => Some(t@),
        None => None,
    }
}

/// A pair of a name and a value, as a map entry.
fn entry(name: &str, value: ConfigValue) -> (r: (String, ConfigValue))
    ensures
        r.0@ == name@,
        r.1@ == value@,
{
    (name.to_owned(), value)
}

/// A map made of the given entries.
fn object_of(fields: Vec<(String, ConfigValue)>) -> (r: ConfigValue)
    ensures
        r@ == JsonView::Object(crate::value::field_views(fields@)),
{
    proof {
        lemma_object_view(fields);
    }
    ConfigValue::Object(fields)
}

/// A list made of the given values.
fn array_of(items: Vec<ConfigValue>) -> (r: ConfigValue)
    ensures
        r@ == JsonView::Array(value_views(items@)),
{
    proof {
        lemma_array_view(items);
    }
    ConfigValue::Array(items)
}

/// The value that stands for a configuration item.
pub fn encode_item(item: &ConfigItem) -> (r: ConfigValue)
    ensures
        r@ == item@.encode(),
{
    let fields = vec![
        entry("key", ConfigValue::String(item.key.clone())),
        entry("value", item.value.clone()),
    ];
    assert(crate::value::field_views(fields@) =~= seq![
        ("key"@, JsonView::String(item@.key)),
        ("value"@, item@.value),
    ]);
    object_of(fields)
}

/// The value that stands for a list of configuration items.
fn encode_items(items: &Vec<ConfigItem>) -> (r: ConfigValue)
    ensures
        r@ == JsonView::Array(encode_all(lift(items@))),
{
    let mut out: Vec<ConfigValue> = Vec::new();
    let mut i: usize = 0;
    while i < items.len()
        invariant
            i <= items.len(),
            out@.len() == i,
            forall|j: int| 0 <= j < i ==> (#[trigger] out@[j])@ == items@[j]@.encode(),
        decreases items.len() - i,
    {
        out.push(encode_item(&items[i]));
        i += 1;
    }
    assert(value_views(out@) =~= encode_all(lift(items@)));
    array_of(out)
}

/// The value that stands for an environment.
pub fn encode_environment(env: &Environment) -> (r: ConfigValue)
    ensures
        r@ == env@.encode(),
{
    let fields = vec![
        entry("name", ConfigValue::String(env.name.clone())),
        entry("config_items", encode_items(&env.config_items)),
    ];
    assert(crate::value::field_views(fields@) =~= seq![
        ("name"@, JsonView::String(env@.name)),
        ("config_items"@, JsonView::Array(encode_all(env@.items))),
    ]);
    object_of(fields)
}

/// The value that stands for a list of environments.
fn encode_environments(envs: &Vec<Environment>) -> (r: ConfigValue)
    ensures
        r@ == JsonView::Array(encode_all(lift(envs@))),
{
    let mut out: Vec<ConfigValue> = Vec::new();
    let mut i: usize = 0;
    while i < envs.len()
        invariant
            i <= envs.len(),
            out@.len() == i,
            forall|j: int| 0 <= j < i ==> (#[trigger] out@[j])@ == envs@[j]@.encode(),
        decreases envs.len() - i,
    {
        out.push(encode_environment(&envs[i]));
        i += 1;
    }
    assert(value_views(out@) =~= encode_all(lift(envs@)));
    array_of(out)
}

/// The value that stands for a project.
pub fn encode_project(project: &Project) -> (r: ConfigValue)
    ensures
        r@ == project@.encode(),
{
    let description = match &project.description {
        Some(d) => ConfigValue::String(d.clone()),
        None => ConfigValue::Null,
    };
    let fields = vec![
        entry("name", ConfigValue::String(project.name.clone())),
        entry("description", description),
        entry("environments", encode_environments(&project.environments)),
    ];
    assert(crate::value::field_views(fields@) =~= project@.encode()->Object_0);
    object_of(fields)
}

/// The value that stands for an API key.
pub fn encode_api_key(key: &ApiKey) -> (r: ConfigValue)
    ensures
        r@ == key@.encode(),
{
    let fields = vec![
        entry("key", ConfigValue::String(key.key.clone())),
        entry("project", ConfigValue::String(key.project.clone())),
    ];
    assert(crate::value::field_views(fields@) =~= key@.encode()->Object_0);
    object_of(fields)
}

/// The document that stands for a tree.
pub fn encode_state(state: &ConfigState) -> (r: ConfigValue)
    ensures
        r@ == state@.encode(),
{
    let mut projects: Vec<ConfigValue> = Vec::new();
    let mut i: usize = 0;
    while i < state.projects.len()
        invariant
            i <= state.projects.len(),
            projects@.len() == i,
            forall|j: int|
                0 <= j < i ==> (#[trigger] projects@[j])@ == state.projects@[j]@.encode(),
        decreases state.projects.len() - i,
    {
        projects.push(encode_project(&state.projects[i]));
        i += 1;
    }
    assert(value_views(projects@) =~= encode_all(state@.projects));
    let mut keys: Vec<ConfigValue> = Vec::new();
    let mut k: usize = 0;
    while k < state.api_keys.len()
        invariant
            k <= state.api_keys.len(),
            keys@.len() == k,
            forall|j: int| 0 <= j < k ==> (#[trigger] keys@[j])@ == state.api_keys@[j]@.encode(),
        decreases state.api_keys.len() - k,
    {
        keys.push(encode_api_key(&state.api_keys[k]));
        k += 1;
    }
    assert(value_views(keys@) =~= encode_all(state@.api_keys));
    let group = vec![entry("environments", encode_environments(&state.shared_group.environments))];
    assert(crate::value::field_views(group@) =~= encode_shared(state@.shared)->Object_0);
    let fields = vec![
        entry("projects", array_of(projects)),
        entry("shared_group", object_of(group)),
        entry("api_keys", array_of(keys)),
    ];
    assert(crate::value::field_views(fields@) =~= state@.encode()->Object_0);
    object_of(fields)
}

/// The text that a value holds, where it is a string.
fn text_in(v: Option<&ConfigValue>) -> (r: Option<String>)
    ensures
        text_of(r) == as_text(
            match v {
                Some(x) => Some(x@),
                None => None,
            },
        ),
{
    match v {
        Some(ConfigValue::String(s)) => Some(s.clone()),
        _ => None,
    }
}

/// The elements that a value holds, where it is a list.
fn list_in(v: Option<&ConfigValue>) -> (r: Option<&Vec<ConfigValue>>)
    ensures
        (match r {
            Some(items) => Some(value_views(items@)),
            None => None,
        }) == as_list(
            match v {
                Some(x) => Some(x@),
                None => None,
            },
        ),
{
    match v {
        Some(ConfigValue::Array(items)) => {
            proof {
                lemma_array_view(*items);
            }
            Some(items)
        },
        _ => None,
    }
}

/// The configuration item that a value stands for.
pub fn decode_item(v: &ConfigValue) -> (r: Option<ConfigItem>)
    ensures
        (match r {
            Some(item) => Some(item@),
            None => None,
        }) == ItemView::decode(v@),
{
    let key = match text_in(v.field("key")) {
        Some(k) => k,
        None => {
            return None;
        },
    };
    match v.field("value") {
        Some(value) => Some(ConfigItem { key: key, value: value.clone() }),
        None => None,
    }
}

/// The configuration items that a list of values stands for.
fn decode_items(vs: &Vec<ConfigValue>) -> (r: Option<Vec<ConfigItem>>)
    ensures
        (match r {
            Some(items) => Some(lift(items@)),
            None => None,
        }) == decode_all::<ItemView>(value_views(vs@)),
{
    let ghost all = value_views(vs@);
    let mut out: Vec<ConfigItem> = Vec::new();
    let mut i: usize = 0;
    assert(all.take(0) =~= Seq::empty());
    assert(lift(out@) =~= Seq::empty());
    while i < vs.len()
        invariant
            i <= vs.len(),
            all == value_views(vs@),
            decode_all::<ItemView>(all.take(i as int)) == Some(lift(out@)),
        decreases vs.len() - i,
    {
        proof {
            assert(all.take(i as int + 1).drop_last() =~= all.take(i as int));
            assert(all.take(i as int + 1).last() == vs@[i as int]@);
        }
        match decode_item(&vs[i]) {
            Some(item) => {
                crate::tree::push_lifted(&mut out, item);
            },
            None => {
                proof {
                    lemma_decode_prefix::<ItemView>(all, i as int + 1);
                }
                return None;
            },
        }
        i += 1;
    }
    assert(all.take(vs.len() as int) =~= all);
    Some(out)
}

/// Where a front part of a list of values does not stand for models, the
/// whole list does not.
pub proof fn lemma_decode_prefix<T: Encoded>(vs: Seq<JsonView>, n: int)
    requires
        0 <= n <= vs.len(),
        decode_all::<T>(vs.take(n)) is None,
    ensures
        decode_all::<T>(vs) is None,
    decreases vs.len() - n,
{
    if n < vs.len() {
        assert(vs.take(n + 1).drop_last() =~= vs.take(n));
        lemma_decode_prefix::<T>(vs, n + 1);
    } else {
        assert(vs.take(n) =~= vs);
    }
}

/// The environment that a value stands for.
pub fn decode_environment(v: &ConfigValue) -> (r: Option<Environment>)
    ensures
        (match r {
            Some(env) => Some(env@),
            None => None,
        }) == EnvView::decode(v@),
{
    let name = match text_in(v.field("name")) {
        Some(n) => n,
        None => {
            return None;
        },
    };
    let list = match list_in(v.field("config_items")) {
        Some(l) => l,
        None => {
            return None;
        },
    };
    match decode_items(list) {
        Some(items) => Some(Environment { name: name, config_items: items }),
        None => None,
    }
}

/// The environments that a list of values stands for.
fn decode_environments(vs: &Vec<ConfigValue>) -> (r: Option<Vec<Environment>>)
    ensures
        (match r {
            Some(envs) => Some(lift(envs@)),
            None => None,
        }) == decode_all::<EnvView>(value_views(vs@)),
{
    let ghost all = value_views(vs@);
    let mut out: Vec<Environment> = Vec::new();
    let mut i: usize = 0;
    assert(all.take(0) =~= Seq::empty());
    assert(lift(out@) =~= Seq::empty());
    while i < vs.len()
        invariant
            i <= vs.len(),
            all == value_views(vs@),
            decode_all::<EnvView>(all.take(i as int)) == Some(lift(out@)),
        decreases vs.len() - i,
    {
        proof {
            assert(all.take(i as int + 1).drop_last() =~= all.take(i as int));
            assert(all.take(i as int + 1).last() == vs@[i as int]@);
        }
        match decode_environment(&vs[i]) {
            Some(env) => {
                crate::tree::push_lifted(&mut out, env);
            },
            None => {
                proof {
                    lemma_decode_prefix::<EnvView>(all, i as int + 1);
                }
                return None;
            },
        }
        i += 1;
    }
    assert(all.take(vs.len() as int) =~= all);
    Some(out)
}

/// The project that a value stands for.
pub fn decode_project(v: &ConfigValue) -> (r: Option<Project>)
    ensures
        (match r {
            Some(p) => Some(p@),
            None => None,
        }) == ProjectView::decode(v@),
{
    let name = match text_in(v.field("name")) {
        Some(n) => n,
        None => {
            return None;
        },
    };
    let description = match v.field("description") {
        None => None,
        Some(ConfigValue::Null) => None,
        Some(ConfigValue::String(s)) => Some(s.clone()),
        Some(_) => {
            return None;
        },
    };
    let list = match list_in(v.field("environments")) {
        Some(l) => l,
        None => {
            return None;
        },
    };
    match decode_environments(list) {
        Some(envs) => Some(Project { name: name, description: description, environments: envs }),
        None => None,
    }
}

/// The API key that a value stands for.
pub fn decode_api_key(v: &ConfigValue) -> (r: Option<ApiKey>)
    ensures
        (match r {
            Some(k) => Some(k@),
            None => None,
        }) == ApiKeyView::decode(v@),
{
    let key = match text_in(v.field("key")) {
        Some(k) => k,
        None => {
            return None;
        },
    };
    match text_in(v.field("project")) {
        Some(project) => Some(ApiKey { key: key, project: project }),
        None => None,
    }
}

/// The projects that a list of values stands for.
fn decode_projects(vs: &Vec<ConfigValue>) -> (r: Option<Vec<Project>>)
    ensures
        (match r {
            Some(projects) => Some(lift(projects@)),
            None => None,
        }) == decode_all::<ProjectView>(value_views(vs@)),
{
    let ghost all = value_views(vs@);
    let mut out: Vec<Project> = Vec::new();
    let mut i: usize = 0;
    assert(all.take(0) =~= Seq::empty());
    assert(lift(out@) =~= Seq::empty());
    while i < vs.len()
        invariant
            i <= vs.len(),
            all == value_views(vs@),
            decode_all::<ProjectView>(all.take(i as int)) == Some(lift(out@)),
        decreases vs.len() - i,
    {
        proof {
            assert(all.take(i as int + 1).drop_last() =~= all.take(i as int));
            assert(all.take(i as int + 1).last() == vs@[i as int]@);
        }
        match decode_project(&vs[i]) {
            Some(project) => {
                crate::tree::push_lifted(&mut out, project);
            },
            None => {
                proof {
                    lemma_decode_prefix::<ProjectView>(all, i as int + 1);
                }
                return None;
            },
        }
        i += 1;
    }
    assert(all.take(vs.len() as int) =~= all);
    Some(out)
}

/// The API keys that a list of values stands for.
fn decode_api_keys(vs: &Vec<ConfigValue>) -> (r: Option<Vec<ApiKey>>)
    ensures
        (match r {
            Some(keys) => Some(lift(keys@)),
            None => None,
        }) == decode_all::<ApiKeyView>(value_views(vs@)),
{
    let ghost all = value_views(vs@);
    let mut out: Vec<ApiKey> = Vec::new();
    let mut i: usize = 0;
    assert(all.take(0) =~= Seq::empty());
    assert(lift(out@) =~= Seq::empty());
    while i < vs.len()
        invariant
            i <= vs.len(),
            all == value_views(vs@),
            decode_all::<ApiKeyView>(all.take(i as int)) == Some(lift(out@)),
        decreases vs.len() - i,
    {
        proof {
            assert(all.take(i as int + 1).drop_last() =~= all.take(i as int));
            assert(all.take(i as int + 1).last() == vs@[i as int]@);
        }
        match decode_api_key(&vs[i]) {
            Some(key) => {
                crate::tree::push_lifted(&mut out, key);
            },
            None => {
                proof {
                    lemma_decode_prefix::<ApiKeyView>(all, i as int + 1);
                }
                return None;
            },
        }
        i += 1;
    }
    assert(all.take(vs.len() as int) =~= all);
    Some(out)
}

/// The tree that a document stands for: `None` where the document lacks a
/// field, or a field has another shape than the tree's.
pub fn decode_state(v: &ConfigValue) -> (r: Option<ConfigState>)
    ensures
        state_of(r) == StateView::decode(v@),
{
    let projects = match list_in(v.field("projects")) {
        Some(l) => l,
        None => {
            return None;
        },
    };
    let keys = match list_in(v.field("api_keys")) {
        Some(l) => l,
        None => {
            return None;
        },
    };
    let projects = match decode_projects(projects) {
        Some(p) => p,
        None => {
            return None;
        },
    };
    let shared = match v.field("shared_group") {
        Some(group) => match list_in(group.field("environments")) {
            Some(list) => match decode_environments(list) {
                Some(envs) => envs,
                None => {
                    return None;
                },
            },
            None => {
                return None;
            },
        },
        None => {
            return None;
        },
    };
    match decode_api_keys(keys) {
        Some(api_keys) => Some(
            ConfigState {
                projects: projects,
                shared_group: SharedGroup { environments: shared },
                api_keys: api_keys,
            },
        ),
        None => None,
    }
}

} // verus!
