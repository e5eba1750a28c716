//! The administration screen as a state machine: what each key does to
//! the screen's state and to the tree behind it. Drawing the screen and
//! reading the keyboard are the caller's part.
use crate::api_key::{generate_api_key, keys_of, list_api_keys, revoke_api_key};
use crate::config::{
    create_config_item, delete_config_item, list_config_items, scope_of, update_config_item,
};
use crate::env::{create_environment, delete_environment, list_environments, new_environment};
use crate::error::{ConfigError, ErrorView};
use crate::export::line_views;
use crate::items::lemma_with_envs_wf;
use crate::json::{compact_text, json_compact, json_parse, parsed_json};
use crate::models::{
    find_environment, find_project, has_key, lift, position, ApiKeyView, ConfigItem, EnvView,
    Environment, ItemView, Keyed, ProjectView, StateView,
};
use crate::panel::{Focus, InputMode, MenuPanel};
use crate::project::{
    create_project, delete_project, lemma_distinct_push, list_projects, new_project,
};
use crate::shared::{
    create_shared_item, delete_shared_item, list_shared_items, update_shared_item,
};
use crate::storage::{loaded, Storage};
use crate::text::{
    after_first, before_first, law_trimmed, pop_char, push_char, text_after, text_before,
    trim_text, trimmed, white_space,
};
use crate::tree::{envs_mut, envs_of, push_lifted, Scope};
use crate::undo::Undo;
use crate::value::{ConfigValue, JsonView};
use vstd::prelude::*;
use vstd::string::StringExecFns;

verus! {

/// A key of the keyboard, as far as the screen tells keys apart.
#[derive(Debug, Clone, Copy, PartialEq, Eq)]
pub enum Key {
    Char(char),
    Up,
    Down,
    Tab,
    BackTab,
    Enter,
    Esc,
    Backspace,
    Other,
}

/// The state of the administration screen.
#[derive(Debug)]
pub struct App {
    center: Storage,
    selected_menu: usize,
    focus: Focus,
    status_message: String,
    running: bool,
    content_items: Vec<String>,
    content_selected: usize,
    input_mode: InputMode,
    input_field: usize,
    input_fields: Vec<(String, String)>,
    current_project: Option<String>,
    current_env: Option<String>,
    server_running: bool,
}

/// Model of the screen's state.
pub struct AppView {
    pub tree: StateView,
    pub selected_menu: int,
    pub focus: Focus,
    pub status: Seq<char>,
    pub running: bool,
    pub content: Seq<Seq<char>>,
    pub content_selected: int,
    pub input_mode: InputMode,
    pub input_field: int,
    pub fields: Seq<(Seq<char>, Seq<char>)>,
    pub current_project: Option<Seq<char>>,
    pub current_env: Option<Seq<char>>,
    pub server_running: bool,
}

/// The models of the fields of a form.
pub open spec fn field_texts(fields: Seq<(String, String)>) -> Seq<(Seq<char>, Seq<char>)> {
    Seq::new(fields.len(), |i: int| (fields[i].0@, fields[i].1@))
}

impl AppView {
    /// The selections point into what they select: the menu selection at
    /// a panel, the content selection at a line, or at 0 where there is no
    /// line.
    pub open spec fn tidy(self) -> bool {
        &&& 0 <= self.selected_menu < 6
        &&& 0 <= self.content_selected
        &&& self.content.len() == 0 ==> self.content_selected == 0
        &&& self.content.len() > 0 ==> self.content_selected < self.content.len()
    }

    /// The menu selection after a key in the menu: up and down move it by
    /// one, within the menu.
    pub open spec fn menu_after(self, key: Key) -> int {
        match key {
            Key::Up => if self.selected_menu > 0 {
                self.selected_menu - 1
            } else {
                self.selected_menu
            },
            Key::Down => if self.selected_menu < 5 {
                self.selected_menu + 1
            } else {
                self.selected_menu
            },
            _ => self.selected_menu,
        }
    }

    /// Whether a key may change the tree: a confirmation in a form or in a
    /// delete dialogue, or the key that generates an API key.
    pub open spec fn may_change_tree(self, key: Key) -> bool {
        match self.input_mode {
            InputMode::Creating => key == Key::Enter,
            InputMode::Deleting => key == Key::Char('y'),
            InputMode::Normal => self.focus == Focus::Content && key == Key::Char('n')
                && self.selected_menu == 4,
        }
    }
}

/// The other focus.
pub open spec fn other_focus(focus: Focus) -> Focus {
    match focus {
        Focus::Menu => Focus::Content,
        Focus::Content => Focus::Menu,
    }
}

/// The text of a value on the screen: its compact JSON text, or nothing
/// where it has none.
pub open spec fn shown_text(value: JsonView) -> Seq<char> {
    match compact_text(value) {
        Some(t) => t,
        None => Seq::empty(),
    }
}

/// The line of a project: its name, with its description in parentheses
/// where it has one.
pub open spec fn project_line(project: ProjectView) -> Seq<char> {
    match project.description {
        Some(d) => project.name + " ("@ + d + ")"@,
        None => project.name,
    }
}

/// The line of an item: `key = value`.
pub open spec fn item_line(item: ItemView) -> Seq<char> {
    item.key + " = "@ + shown_text(item.value)
}

/// The line of an API key: `key (project)`.
pub open spec fn key_line(key: ApiKeyView) -> Seq<char> {
    key.key + " ("@ + key.project + ")"@
}

/// The lines of a list of projects.
pub open spec fn project_rows(projects: Seq<ProjectView>) -> Seq<Seq<char>> {
    Seq::new(projects.len(), |i: int| project_line(projects[i]))
}

/// The lines of a list of environments: their names.
pub open spec fn env_rows(envs: Seq<EnvView>) -> Seq<Seq<char>> {
    Seq::new(envs.len(), |i: int| envs[i].name)
}

/// The lines of a list of items.
pub open spec fn item_rows(items: Seq<ItemView>) -> Seq<Seq<char>> {
    Seq::new(items.len(), |i: int| item_line(items[i]))
}

/// The lines of a list of API keys.
pub open spec fn key_rows(keys: Seq<ApiKeyView>) -> Seq<Seq<char>> {
    Seq::new(keys.len(), |i: int| key_line(keys[i]))
}

/// Whether a panel makes sure that a project is chosen: the environments,
/// the items, the shared group and the API keys panel do.
pub open spec fn uses_project(menu: int) -> bool {
    1 <= menu <= 4
}

/// Whether a panel makes sure that an environment is chosen: the items
/// and the shared group panel do.
pub open spec fn uses_env(menu: int) -> bool {
    menu == 2 || menu == 3
}

/// The project that a panel shows: the chosen one, or the first project
/// where none was chosen.
pub open spec fn chosen_project(tree: StateView, current: Option<Seq<char>>) -> Option<Seq<char>> {
    match current {
        Some(p) => Some(p),
        None => if tree.projects.len() > 0 {
            Some(tree.projects[0].name)
        } else {
            None
        },
    }
}

/// The environment that a panel shows: the chosen one, or `default`.
pub open spec fn chosen_env(current: Option<Seq<char>>) -> Seq<char> {
    match current {
        Some(e) => e,
        None => "default"@,
    }
}

/// The name of a project, or the empty name.
pub open spec fn name_or_empty(project: Option<Seq<char>>) -> Seq<char> {
    match project {
        Some(p) => p,
        None => Seq::empty(),
    }
}

/// The lines that a panel shows of a tree.
pub open spec fn panel_lines(
    tree: StateView,
    menu: int,
    project: Option<Seq<char>>,
    env: Option<Seq<char>>,
    server_running: bool,
) -> Seq<Seq<char>> {
    if menu == 0 {
        project_rows(tree.projects)
    } else if menu == 1 {
        match project {
            Some(p) => if tree.has_project(p) {
                env_rows(tree.project(p).environments)
            } else {
                Seq::empty()
            },
            None => Seq::empty(),
        }
    } else if menu == 2 {
        if tree.environment_error(name_or_empty(project), chosen_env(env)) is None {
            item_rows(tree.project(name_or_empty(project)).environment(chosen_env(env)).items)
        } else {
            Seq::empty()
        }
    } else if menu == 3 {
        if tree.has_shared(chosen_env(env)) {
            item_rows(tree.shared_env(chosen_env(env)).items)
        } else {
            Seq::empty()
        }
    } else if menu == 4 {
        match project {
            Some(p) => if tree.has_project(p) {
                key_rows(keys_of(tree.api_keys, p))
            } else {
                Seq::empty()
            },
            None => Seq::empty(),
        }
    } else if server_running {
        seq!["Server: Running on :3000"@]
    } else {
        seq!["Server: Stopped"@]
    }
}

/// A selection moved back into a list of the given length.
pub open spec fn clamped(selected: int, len: nat) -> int {
    if len == 0 {
        0
    } else if selected >= len {
        len - 1
    } else {
        selected
    }
}

impl AppView {
    /// The screen after its content has been filled in anew.
    pub open spec fn refreshed(self) -> AppView {
        let project = if uses_project(self.selected_menu) {
            chosen_project(self.tree, self.current_project)
        } else {
            self.current_project
        };
        let env = if uses_env(self.selected_menu) {
            Some(chosen_env(self.current_env))
        } else {
            self.current_env
        };
        let content = panel_lines(self.tree, self.selected_menu, project, env, self.server_running);
        AppView {
            content: content,
            content_selected: clamped(self.content_selected, content.len()),
            current_project: project,
            current_env: env,
            ..self
        }
    }

    /// The content area shows what the tree holds: the lines of the
    /// selected panel, for the project and the environment that the panel
    /// shows.
    pub open spec fn shows_tree(self) -> bool {
        &&& self.content == panel_lines(
            self.tree,
            self.selected_menu,
            self.current_project,
            self.current_env,
            self.server_running,
        )
        &&& uses_project(self.selected_menu) ==> self.current_project == chosen_project(
            self.tree,
            self.current_project,
        )
        &&& uses_env(self.selected_menu) ==> self.current_env is Some
    }
}

/// A screen whose content was filled in anew shows what the tree holds,
/// and its selections are in range.
pub proof fn lemma_refreshed(v: AppView)
    ensures
        v.refreshed().shows_tree(),
        0 <= v.selected_menu < 6 && 0 <= v.content_selected ==> v.refreshed().tidy(),
{
}

/// The title of the content area for a panel.
pub open spec fn title_text(
    panel: MenuPanel,
    project: Option<Seq<char>>,
    env: Option<Seq<char>>,
) -> Seq<char> {
    let shown_project = match project {
        Some(p) => p,
        None => "none"@,
    };
    match panel {
        MenuPanel::Projects => " Projects "@,
        MenuPanel::Environments => " Environments [project: "@ + shown_project + "] "@,
        MenuPanel::ConfigItems => " Config Items ["@ + shown_project + ":"@ + chosen_env(env)
            + "] (p=project, v=env) "@,
        MenuPanel::SharedGroup => " Shared Group [env: "@ + chosen_env(env) + "] (v=env) "@,
        MenuPanel::ApiKeys => " API Keys [project: "@ + shown_project + "] (p=project) "@,
        MenuPanel::Server => " Server "@,
    }
}

/// The status line that reports an error.
pub open spec fn failure(e: ErrorView) -> Seq<char> {
    "Error: "@ + e.message()
}

/// The index after `at` in a list of the given length, the first index
/// after the last.
pub open spec fn following(at: int, len: int) -> int {
    if at + 1 >= len {
        0
    } else {
        at + 1
    }
}

/// The index, in a list, of the element with a key; 0 where none has it.
pub open spec fn index_or_first<T: Keyed>(list: Seq<T>, key: Seq<char>) -> int {
    if has_key(list, key) {
        position(list, key)
    } else {
        0
    }
}

/// The texts of a list of labels.
pub open spec fn label_texts(labels: Seq<&str>) -> Seq<Seq<char>> {
    Seq::new(labels.len(), |i: int| labels[i]@)
}

/// A form with the given labels and empty values.
pub open spec fn blank(labels: Seq<Seq<char>>) -> Seq<(Seq<char>, Seq<char>)> {
    Seq::new(labels.len(), |i: int| (labels[i], Seq::empty()))
}

/// The value that a typed text stands for: what it holds as JSON, or the
/// text itself as a string where it is no JSON document.
pub open spec fn typed_value(raw: Seq<char>) -> JsonView {
    match parsed_json(raw) {
        Some(v) => v,
        None => JsonView::String(raw),
    }
}

/// The tree and the status line after an item was confirmed in a form: the
/// item is updated where an item has the key, else created.
pub open spec fn item_confirmed(
    tree: StateView,
    scope: Scope,
    env: Seq<char>,
    key: Seq<char>,
    value: JsonView,
    update_error: Option<ErrorView>,
    create_error: Option<ErrorView>,
    what: Seq<char>,
) -> (StateView, Seq<char>) {
    match (update_error, create_error) {
        (None, _) => (tree.set_value(scope, env, key, value), what + key + "' updated"@),
        (Some(_), None) => (
            tree.add_item(scope, env, ItemView { key: key, value: value }),
            what + key + "' created"@,
        ),
        (Some(_), Some(e)) => (tree, failure(e)),
    }
}

/// The tree and the status line after the deletion of an entry was tried.
pub open spec fn removal(
    tree: StateView,
    error: Option<ErrorView>,
    removed: StateView,
    done: Seq<char>,
) -> (StateView, Seq<char>) {
    match error {
        None => (removed, done),
        Some(e) => (tree, failure(e)),
    }
}

impl AppView {
    /// The screen with another status line.
    pub open spec fn with_status(self, status: Seq<char>) -> AppView {
        AppView { status: status, ..self }
    }

    /// The screen with a project chosen: the current one, or the first
    /// project where none was chosen.
    pub open spec fn with_project(self) -> AppView {
        AppView { current_project: chosen_project(self.tree, self.current_project), ..self }
    }

    /// The screen with a project and an environment chosen: the current
    /// ones, or the first project and `default`.
    pub open spec fn with_env(self) -> AppView {
        AppView {
            current_project: chosen_project(self.tree, self.current_project),
            current_env: Some(chosen_env(self.current_env)),
            ..self
        }
    }

    /// The screen after `p`: the project after the current one becomes the
    /// current one, the first after the last, and `default` the current
    /// environment; the content is filled in anew, and the status line
    /// names the project. Nothing changes where there is no project.
    pub open spec fn project_cycled(self) -> AppView {
        let projects = self.tree.projects;
        if projects.len() == 0 {
            self
        } else {
            let at = index_or_first(projects, name_or_empty(self.current_project));
            let name = projects[following(at, projects.len() as int)].name;
            AppView {
                status: "Switched to project: "@ + name,
                ..(AppView {
                    current_project: Some(name),
                    current_env: Some("default"@),
                    ..self
                }).refreshed()
            }
        }
    }

    /// The environments that `v` cycles through for a project: those of the
    /// shared group in its panel, those of the project elsewhere; `None`
    /// where the project is missing.
    pub open spec fn envs_to_cycle(self, project: Seq<char>) -> Option<Seq<EnvView>> {
        if self.selected_menu == 3 {
            Some(self.tree.shared)
        } else if self.tree.has_project(project) {
            Some(self.tree.project(project).environments)
        } else {
            None
        }
    }

    /// The screen after `v`: the environment after the current one becomes
    /// the current one, the first after the last; the content is filled in
    /// anew, and the status line names the environment. Nothing changes
    /// where no project is chosen, the project is missing, or there is no
    /// environment.
    pub open spec fn env_cycled(self) -> AppView {
        match self.current_project {
            None => self,
            Some(project) => match self.envs_to_cycle(project) {
                None => self,
                Some(envs) => if envs.len() == 0 {
                    self
                } else {
                    let at = index_or_first(envs, name_or_empty(self.current_env));
                    let name = envs[following(at, envs.len() as int)].name;
                    AppView {
                        status: "Switched to env: "@ + name,
                        ..(AppView { current_env: Some(name), ..self }).refreshed()
                    }
                },
            },
        }
    }

    /// The selected line of the content area, where the selection points
    /// at one.
    pub open spec fn selected_text(self) -> Option<Seq<char>> {
        if 0 <= self.content_selected < self.content.len() {
            Some(self.content[self.content_selected])
        } else {
            None
        }
    }

    /// The screen after `e`: in the items panel and the shared group panel,
    /// the form opens with the key and the value of the selected line,
    /// which are what stands before and after its first ` = `, and the
    /// input is on the value. Nothing changes elsewhere, or where the line
    /// holds no ` = `.
    pub open spec fn editing(self) -> AppView {
        match self.selected_text() {
            Some(line) => if self.selected_menu == 2 || self.selected_menu == 3 {
                match after_first(line, " = "@) {
                    Some(value) => AppView {
                        fields: seq![("Key"@, before_first(line, " = "@)), ("Value"@, value)],
                        input_field: 1,
                        input_mode: InputMode::Creating,
                        status: "Editing... Tab=next field, Enter=confirm, Esc=cancel"@,
                        ..self
                    },
                    None => self,
                }
            } else {
                self
            },
            None => self,
        }
    }

    /// The screen with the form of a new entry open.
    pub open spec fn form_opened(self, labels: Seq<Seq<char>>) -> AppView {
        AppView {
            fields: blank(labels),
            input_field: 0,
            input_mode: InputMode::Creating,
            status: "Creating... Tab=next field, Enter=confirm, Esc=cancel"@,
            ..self
        }
    }

    /// Whether `n` generates an API key: the API keys panel is selected,
    /// and the project that it shows is in the tree.
    pub open spec fn generates_key(self) -> bool {
        self.selected_menu == 4 && (chosen_project(self.tree, self.current_project) matches Some(p)
            && self.tree.has_project(p))
    }

    /// The screen after an API key with this token was generated for the
    /// project that the panel shows.
    pub open spec fn key_generated(self, token: Seq<char>) -> AppView {
        let v = self.with_project();
        let key = ApiKeyView { key: token, project: name_or_empty(v.current_project) };
        AppView {
            status: "API Key generated: "@ + token,
            ..(AppView { tree: v.tree.add_api_key(key), ..v }).refreshed()
        }
    }

    /// The screen after `n`, where no API key is generated: the form of the
    /// selected panel opens, or the status line tells why it does not.
    pub open spec fn started(self) -> AppView {
        if self.selected_menu == 0 {
            self.form_opened(seq!["Name"@, "Description"@])
        } else if self.selected_menu == 1 {
            if self.with_project().current_project is None {
                self.with_project().with_status(
                    "Error: no project selected, create a project first"@,
                )
            } else {
                self.with_project().form_opened(seq!["Name"@])
            }
        } else if self.selected_menu == 2 {
            if self.with_env().current_project is None {
                self.with_env().with_status("Error: no project selected"@)
            } else {
                self.with_env().form_opened(seq!["Key"@, "Value"@])
            }
        } else if self.selected_menu == 3 {
            self.with_env().form_opened(seq!["Key"@, "Value"@])
        } else if self.selected_menu == 4 {
            match self.with_project().current_project {
                None => self.with_project().with_status("Error: no project selected"@),
                Some(p) => self.with_project().with_status(failure(ErrorView::ProjectNotFound(p))),
            }
        } else {
            self.with_status("Use 's' to toggle server"@)
        }
    }

    /// Whether a screen is what `n` makes of this one. Which token a
    /// generated API key has is not told; it has 36 characters.
    pub open spec fn start_result(self, after: AppView) -> bool {
        if self.generates_key() {
            exists|token: Seq<char>|
                token.len() == 36 && after == #[trigger] self.key_generated(token)
        } else {
            after == self.started()
        }
    }

    /// The value of a field of the form, without the white space at its
    /// ends; empty where the form has no such field.
    pub open spec fn field_text(self, index: int) -> Seq<char> {
        if 0 <= index < self.fields.len() {
            trimmed(self.fields[index].1)
        } else {
            Seq::empty()
        }
    }

    /// The tree with an environment of this name in the shared group.
    pub open spec fn shared_ensured(self, env: Seq<char>) -> StateView {
        if self.tree.has_shared(env) {
            self.tree
        } else {
            self.tree.add_environment(Scope::Shared, new_environment(env))
        }
    }

    /// The tree and the status line after the form was confirmed; `None`
    /// where the name or the key is empty and the form stays open.
    ///
    /// A project or an environment is created under the name in the first
    /// field. An item gets the value that the second field stands for: it
    /// is updated where an item has the key, else created; in the shared
    /// group the environment is made first where it is missing.
    pub open spec fn create_outcome(self) -> Option<(StateView, Seq<char>)> {
        let tree = self.tree;
        let project = name_or_empty(self.current_project);
        let env = chosen_env(self.current_env);
        let first = self.field_text(0);
        let value = typed_value(self.field_text(1));
        if self.selected_menu < 0 || self.selected_menu > 3 {
            Some((tree, "Not supported"@))
        } else if first.len() == 0 {
            None
        } else if self.selected_menu == 0 {
            if tree.has_project(first) {
                Some((tree, failure(ErrorView::ProjectAlreadyExists(first))))
            } else {
                Some(
                    (
                        tree.add_project(
                            new_project(
                                first,
                                if self.field_text(1).len() == 0 {
                                    None
                                } else {
                                    Some(self.field_text(1))
                                },
                            ),
                        ),
                        "Project '"@ + first + "' created"@,
                    ),
                )
            }
        } else if self.selected_menu == 1 {
            match tree.create_environment_error(project, first) {
                None => Some(
                    (
                        tree.add_environment(tree.project_scope(project), new_environment(first)),
                        "Environment '"@ + first + "' created"@,
                    ),
                ),
                Some(e) => Some((tree, failure(e))),
            }
        } else if self.selected_menu == 2 {
            Some(
                item_confirmed(
                    tree,
                    tree.project_scope(project),
                    env,
                    first,
                    value,
                    tree.config_error(project, env, first),
                    tree.create_config_error(project, env, first),
                    "Config '"@,
                ),
            )
        } else {
            Some(
                item_confirmed(
                    self.shared_ensured(env),
                    Scope::Shared,
                    env,
                    first,
                    value,
                    self.shared_ensured(env).item_error(Scope::Shared, env, first),
                    self.shared_ensured(env).create_item_error(Scope::Shared, env, first),
                    "Shared config '"@,
                ),
            )
        }
    }

    /// The screen after Enter in a form: where the name or the key is
    /// empty, the status line says so and the form stays open; else the
    /// entry is created or updated, the form closes, and the content is
    /// filled in anew.
    pub open spec fn created(self) -> AppView {
        match self.create_outcome() {
            None => self.with_status(
                if self.selected_menu <= 1 {
                    "Error: name cannot be empty"@
                } else {
                    "Error: key cannot be empty"@
                },
            ),
            Some((tree, status)) => (AppView {
                tree: tree,
                status: status,
                input_mode: InputMode::Normal,
                fields: Seq::empty(),
                ..self
            }).refreshed(),
        }
    }

    /// The screen after a key in a form: Esc closes the form, the
    /// tabulator moves the input to the next field and back-tab to the
    /// field before, Enter confirms, Backspace removes the last character
    /// of the field that has the input, and a character is appended to it.
    pub open spec fn after_create_key(self, key: Key) -> AppView {
        let n = self.fields.len() as int;
        let i = self.input_field;
        match key {
            Key::Esc => AppView {
                input_mode: InputMode::Normal,
                fields: Seq::empty(),
                status: "Cancelled"@,
                ..self
            },
            Key::Tab => if n > 0 {
                AppView {
                    input_field: if i < usize::MAX {
                        (i + 1) % n
                    } else {
                        0
                    },
                    ..self
                }
            } else {
                self
            },
            Key::BackTab => if n > 0 && i > 0 {
                AppView { input_field: i - 1, ..self }
            } else {
                self
            },
            Key::Enter => self.created(),
            Key::Backspace => if 0 <= i < n {
                AppView {
                    fields: self.fields.update(
                        i,
                        (
                            self.fields[i].0,
                            if self.fields[i].1.len() > 0 {
                                self.fields[i].1.drop_last()
                            } else {
                                self.fields[i].1
                            },
                        ),
                    ),
                    ..self
                }
            } else {
                self
            },
            Key::Char(c) => if 0 <= i < n {
                AppView {
                    fields: self.fields.update(i, (self.fields[i].0, self.fields[i].1.push(c))),
                    ..self
                }
            } else {
                self
            },
            _ => self,
        }
    }

    /// The tree and the status line after a deletion was confirmed: the
    /// entry that the selected line stands for is deleted, or the status
    /// line tells why it is not.
    pub open spec fn delete_outcome(self) -> (StateView, Seq<char>) {
        let tree = self.tree;
        let project = name_or_empty(self.current_project);
        let env = chosen_env(self.current_env);
        if self.selected_menu < 0 || self.selected_menu > 4 {
            (tree, "Use 's' to toggle server"@)
        } else {
            match self.selected_text() {
                None => (tree, self.status),
                Some(line) => if self.selected_menu == 0 {
                    removal(
                        tree,
                        if tree.has_project(before_first(line, " ("@)) {
                            None
                        } else {
                            Some(ErrorView::ProjectNotFound(before_first(line, " ("@)))
                        },
                        tree.remove_project(before_first(line, " ("@)),
                        "Project '"@ + before_first(line, " ("@) + "' deleted"@,
                    )
                } else if self.selected_menu == 1 {
                    removal(
                        tree,
                        tree.environment_error(project, line),
                        tree.remove_environment(tree.project_scope(project), line),
                        "Environment '"@ + line + "' deleted"@,
                    )
                } else if self.selected_menu == 2 {
                    removal(
                        tree,
                        tree.config_error(project, env, before_first(line, " = "@)),
                        tree.remove_item(
                            tree.project_scope(project),
                            env,
                            before_first(line, " = "@),
                        ),
                        "Config '"@ + before_first(line, " = "@) + "' deleted"@,
                    )
                } else if self.selected_menu == 3 {
                    removal(
                        tree,
                        tree.item_error(Scope::Shared, env, before_first(line, " = "@)),
                        tree.remove_item(Scope::Shared, env, before_first(line, " = "@)),
                        "Shared config '"@ + before_first(line, " = "@) + "' deleted"@,
                    )
                } else {
                    removal(
                        tree,
                        if has_key(tree.api_keys, before_first(line, " ("@)) {
                            None
                        } else {
                            Some(ErrorView::ApiKeyNotFound(before_first(line, " ("@)))
                        },
                        tree.remove_api_key(before_first(line, " ("@)),
                        "API Key revoked: "@ + before_first(line, " ("@),
                    )
                },
            }
        }
    }

    /// The screen after `y` in the delete dialogue: the entry is deleted,
    /// the dialogue closes, and the content is filled in anew.
    pub open spec fn deleted(self) -> AppView {
        (AppView {
            tree: self.delete_outcome().0,
            status: self.delete_outcome().1,
            input_mode: InputMode::Normal,
            ..self
        }).refreshed()
    }

    /// The screen after a key in the delete dialogue: `y` deletes, `n` and
    /// Esc close the dialogue, any other key does nothing.
    pub open spec fn after_delete_key(self, key: Key) -> AppView {
        if key == Key::Char('y') {
            self.deleted()
        } else if key == Key::Char('n') || key == Key::Esc {
            AppView { input_mode: InputMode::Normal, status: "Cancelled"@, ..self }
        } else {
            self
        }
    }

    /// The screen after `s`: in the server panel the server is shown as
    /// started or stopped, the content is filled in anew, and the status
    /// line says which; nothing changes elsewhere.
    pub open spec fn server_toggled(self) -> AppView {
        if self.selected_menu >= 5 {
            AppView {
                status: if self.server_running {
                    "Server stopped"@
                } else {
                    "Server started on :3000 (hint: run `cargo run -- serve` in terminal)"@
                },
                ..(AppView { server_running: !self.server_running, ..self }).refreshed()
            }
        } else {
            self
        }
    }

    /// The screen after a key in the content area, but for `n`: up and
    /// down move the selection within the lines, `d` opens the delete
    /// dialogue where there is a line, `e` opens the form of the selected
    /// item, `p` and `v` take the next project and environment, and `s`
    /// toggles the server.
    pub open spec fn after_content_key(self, key: Key) -> AppView {
        if key == Key::Up {
            if self.content_selected > 0 {
                AppView { content_selected: self.content_selected - 1, ..self }
            } else {
                self
            }
        } else if key == Key::Down {
            if self.content.len() > 0 && self.content_selected < self.content.len() - 1 {
                AppView { content_selected: self.content_selected + 1, ..self }
            } else {
                self
            }
        } else if key == Key::Char('d') {
            if self.content.len() > 0 {
                AppView {
                    input_mode: InputMode::Deleting,
                    status: "Delete? y=confirm, n/Esc=cancel"@,
                    ..self
                }
            } else {
                self
            }
        } else if key == Key::Char('e') {
            self.editing()
        } else if key == Key::Char('p') {
            self.project_cycled()
        } else if key == Key::Char('v') {
            self.env_cycled()
        } else if key == Key::Char('s') {
            self.server_toggled()
        } else {
            self
        }
    }

    /// Whether a screen is what a key in the content area makes of this
    /// one.
    pub open spec fn content_key_result(self, key: Key, after: AppView) -> bool {
        if key == Key::Char('n') {
            self.start_result(after)
        } else {
            after == self.after_content_key(key)
        }
    }

    /// The screen after a key in the menu: up and down move the selection
    /// by one within the menu, and the content is filled in anew where it
    /// moved; Enter names the selected panel in the status line.
    pub open spec fn after_menu_key(self, key: Key) -> AppView {
        if key == Key::Enter {
            self.with_status("Selected: "@ + MenuPanel::placed(self.selected_menu).label_text())
        } else if self.menu_after(key) != self.selected_menu {
            (AppView { selected_menu: self.menu_after(key), ..self }).refreshed()
        } else {
            self
        }
    }

    /// Whether a screen is what a key makes of this one. While a form or a
    /// delete dialogue is open, the key goes to it. Else `q` closes the
    /// screen, the tabulator moves the focus, and any other key goes to
    /// the area that has the focus.
    pub open spec fn key_result(self, key: Key, after: AppView) -> bool {
        match self.input_mode {
            InputMode::Creating => after == self.after_create_key(key),
            InputMode::Deleting => after == self.after_delete_key(key),
            InputMode::Normal => if key == Key::Char('q') {
                after == (AppView { running: false, ..self })
            } else if key == Key::Tab {
                after == (AppView { focus: other_focus(self.focus), ..self })
            } else if self.focus == Focus::Menu {
                after == self.after_menu_key(key)
            } else {
                self.content_key_result(key, after)
            },
        }
    }
}

/// A form whose first field holds nothing but white space is not
/// confirmed: the tree stays as it is, the form stays open, and the status
/// line says that the name, or the key, cannot be empty.
pub proof fn law_blank_name_refused(screen: AppView)
    requires
        0 <= screen.selected_menu <= 3,
        screen.fields.len() > 0 ==> forall|i: int|
            0 <= i < screen.fields[0].1.len() ==> white_space(#[trigger] screen.fields[0].1[i]),
    ensures
        screen.after_create_key(Key::Enter) == screen.with_status(
            if screen.selected_menu <= 1 {
                "Error: name cannot be empty"@
            } else {
                "Error: key cannot be empty"@
            },
        ),
{
    if screen.fields.len() > 0 {
        law_trimmed(screen.fields[0].1);
    }
}

/// Two texts joined.
fn join2(a: &str, b: &str) -> (r: String)
    ensures
        r@ == a@ + b@,
{
    let mut out = String::from_str(a);
    out.append(b);
    out
}

/// Three texts joined.
fn join3(a: &str, b: &str, c: &str) -> (r: String)
    ensures
        r@ == a@ + b@ + c@,
{
    let mut out = String::from_str(a);
    out.append(b);
    out.append(c);
    out
}

/// Four texts joined.
fn join4(a: &str, b: &str, c: &str, d: &str) -> (r: String)
    ensures
        r@ == a@ + b@ + c@ + d@,
{
    let mut out = String::from_str(a);
    out.append(b);
    out.append(c);
    out.append(d);
    out
}

/// The text of a value on the screen: its compact JSON text.
fn shown(value: &ConfigValue) -> (r: String)
    ensures
        r@ == shown_text(value@),
{
    match json_compact(value) {
        Some(t) => t,
        None => String::new(),
    }
}

/// The message that reports an error.
fn error_status(e: &ConfigError) -> (r: String)
    ensures
        r@ == "Error: "@ + e@.message(),
{
    let message = e.message();
    join2("Error: ", message.as_str())
}

impl View for App {
    type V = AppView;

    closed spec fn view(&self) -> AppView {
        AppView {
            tree: self.center@,
            selected_menu: self.selected_menu as int,
            focus: self.focus,
            status: self.status_message@,
            running: self.running,
            content: line_views(self.content_items@),
            content_selected: self.content_selected as int,
            input_mode: self.input_mode,
            input_field: self.input_field as int,
            fields: field_texts(self.input_fields@),
            current_project: crate::models::text_of(self.current_project),
            current_env: crate::models::text_of(self.current_env),
            server_running: self.server_running,
        }
    }
}

impl App {
    /// The store behind the screen.
    pub closed spec fn store(&self) -> Storage {
        self.center
    }

    /// The screen over the snapshot that the content of a file holds; see
    /// [`Storage::load`].
    pub fn new(content: Option<&str>) -> (r: Result<App, ConfigError>)
        ensures
            r is Ok <==> loaded(crate::models::str_of(content)) is Some,
            r matches Ok(app) ==> {
                &&& Some(app@.tree) == loaded(crate::models::str_of(content))
                &&& app@.tidy()
                &&& app@.shows_tree()
                &&& app@.running
                &&& app@.selected_menu == 0
                &&& app@.focus == Focus::Menu
                &&& app@.input_mode == InputMode::Normal
                &&& app@.status == "Ready"@
            },
            r matches Err(e) ==> e@ is SerializationError,
    {
        match Storage::load(content) {
            Ok(center) => Ok(App::with_center(center)),
            Err(e) => Err(e),
        }
    }

    /// The screen over a store.
    pub fn with_center(center: Storage) -> (r: App)
        ensures
            r@.tree == center@,
            r@.tidy(),
            r@.shows_tree(),
            r@.running,
            r@.selected_menu == 0,
            r@.focus == Focus::Menu,
            r@.input_mode == InputMode::Normal,
            r@.status == "Ready"@,
            !r@.server_running,
            r@.current_project is None,
            r@.current_env is None,
    {
        let mut app = App {
            center: center,
            selected_menu: 0,
            focus: Focus::Menu,
            status_message: "Ready".to_owned(),
            running: true,
            content_items: Vec::new(),
            content_selected: 0,
            input_mode: InputMode::Normal,
            input_field: 0,
            input_fields: Vec::new(),
            current_project: None,
            current_env: None,
            server_running: false,
        };
        app.refresh_content();
        app
    }

    /// The store behind the screen.
    pub fn center(&self) -> (r: &Storage)
        ensures
            *r == self.store(),
            r@ == self@.tree,
    {
        &self.center
    }

    /// The store behind the screen, to be changed. The screen shows what it
    /// showed before until `refresh_content` is called.
    pub fn center_mut(&mut self) -> (r: &mut Storage)
        ensures
            r@ == old(self)@.tree,
            final(self)@ == (AppView { tree: final(r)@, ..old(self)@ }),
    {
        &mut self.center
    }

    /// The panel that the menu selection points at.
    pub fn selected_panel(&self) -> (r: MenuPanel)
        ensures
            self@.selected_menu < 6 ==> r.index() == self@.selected_menu,
    {
        MenuPanel::at(self.selected_menu)
    }

    /// Where the focus lies.
    pub fn focus(&self) -> (r: Focus)
        ensures
            r == self@.focus,
    {
        self.focus
    }

    /// The status line.
    pub fn status_message(&self) -> (r: &str)
        ensures
            r@ == self@.status,
    {
        self.status_message.as_str()
    }

    /// Sets the status line.
    pub fn set_status(&mut self, msg: &str)
        ensures
            final(self)@ == (AppView { status: msg@, ..old(self)@ }),
    {
        self.status_message = msg.to_owned();
    }

    /// Whether the screen is still open.
    pub fn is_running(&self) -> (r: bool)
        ensures
            r == self@.running,
    {
        self.running
    }

    /// What the content area does with input.
    pub fn input_mode(&self) -> (r: InputMode)
        ensures
            r == self@.input_mode,
    {
        self.input_mode
    }

    /// The lines of the content area.
    pub fn content_items(&self) -> (r: &Vec<String>)
        ensures
            line_views(r@) == self@.content,
    {
        &self.content_items
    }

    /// The selected line of the content area.
    pub fn content_selected(&self) -> (r: usize)
        ensures
            r == self@.content_selected,
    {
        self.content_selected
    }

    /// The fields of the form: labels and values.
    pub fn input_fields(&self) -> (r: &Vec<(String, String)>)
        ensures
            field_texts(r@) == self@.fields,
    {
        &self.input_fields
    }

    /// The field of the form that takes the input.
    pub fn input_field(&self) -> (r: usize)
        ensures
            r == self@.input_field,
    {
        self.input_field
    }

    /// The project that the panels show.
    pub fn current_project(&self) -> (r: Option<&str>)
        ensures
            crate::models::str_of(r) == self@.current_project,
    {
        match &self.current_project {
            Some(p) => Some(p.as_str()),
            None => None,
        }
    }

    /// The environment that the panels show.
    pub fn current_env(&self) -> (r: Option<&str>)
        ensures
            crate::models::str_of(r) == self@.current_env,
    {
        match &self.current_env {
            Some(e) => Some(e.as_str()),
            None => None,
        }
    }

    /// Whether the server is shown as running.
    pub fn server_running(&self) -> (r: bool)
        ensures
            r == self@.server_running,
    {
        self.server_running
    }

    /// Whether the last change of the tree still waits to be written out.
    pub fn needs_persist(&self) -> (r: bool)
        ensures
            r == self.store().pending() is Some,
    {
        self.center.has_pending()
    }

    /// The caller has written the snapshot out: the last change is
    /// settled.
    pub fn persisted(&mut self)
        ensures
            final(self)@ == old(self)@,
            final(self).store().pending() is None,
    {
        self.center.commit();
    }

    /// The caller could not write the snapshot out: the last change of the
    /// tree is taken back, and the status line tells why.
    pub fn persist_failed(&mut self, reason: &str)
        ensures
            final(self)@.tree == old(self).store().rolled_back(),
            final(self)@.status == "Error: io error: "@ + reason@,
            final(self)@.shows_tree(),
            final(self).store().pending() is None,
            old(self)@.tidy() ==> final(self)@.tidy(),
    {
        let _ = self.center.rollback();
        self.refresh_content();
        self.status_message = join2("Error: io error: ", reason);
    }

    /// The current project is the first project where none was chosen.
    fn ensure_current_project(&mut self)
        ensures
            final(self).store() == old(self).store(),
            final(self)@ == (AppView {
                current_project: chosen_project(old(self)@.tree, old(self)@.current_project),
                ..old(self)@
            }),
    {
        if self.current_project.is_none() {
            let projects = &self.center.state().projects;
            if projects.len() > 0 {
                self.current_project = Some(projects[0].name.clone());
            }
        }
    }

    /// The current environment is `default` where none was chosen.
    fn ensure_current_env(&mut self)
        ensures
            final(self).store() == old(self).store(),
            final(self)@ == (AppView {
                current_project: chosen_project(old(self)@.tree, old(self)@.current_project),
                current_env: Some(chosen_env(old(self)@.current_env)),
                ..old(self)@
            }),
    {
        self.ensure_current_project();
        if self.current_env.is_none() {
            self.current_env = Some("default".to_owned());
        }
    }

    /// Makes sure that the shared group has an environment of this name.
    /// The screen shows what it showed before until `refresh_content` is
    /// called.
    pub fn ensure_shared_env(&mut self, env_name: &str)
        ensures
            final(self)@ == (AppView { tree: final(self)@.tree, ..old(self)@ }),
            final(self)@.tree.has_shared(env_name@),
            old(self)@.tree.has_shared(env_name@) ==> final(self).store() == old(self).store(),
            !old(self)@.tree.has_shared(env_name@) ==> final(self)@.tree
                == old(self)@.tree.add_environment(Scope::Shared, new_environment(env_name@)),
            !old(self)@.tree.has_shared(env_name@) ==> final(self).store().rolled_back()
                == old(self)@.tree,
            old(self)@.tree.wf() ==> final(self)@.tree.wf(),
    {
        if find_environment(&self.center.state().shared_group.environments, env_name).is_none() {
            let env = Environment { name: env_name.to_owned(), config_items: Vec::new() };
            proof {
                let s = self.center@;
                assert(env@.items =~= Seq::empty());
                crate::env::law_create_environment_undone(s, Scope::Shared, env@);
                crate::project::lemma_has_key_push(s.shared, env@, env_name@);
                if s.wf() {
                    lemma_distinct_push(s.shared, env@);
                    assert forall|i: int| 0 <= i < s.shared.push(env@).len() implies (
                    #[trigger] s.shared.push(env@)[i]).wf() by {
                        if i < s.shared.len() {
                            assert(s.shared[i].wf());
                        }
                    }
                    lemma_with_envs_wf(s, Scope::Shared, s.shared.push(env@));
                }
            }
            let envs = envs_mut(self.center.state_mut(), Scope::Shared);
            push_lifted(envs, env);
            self.center.record(Undo::DropLastEnvironment { scope: Scope::Shared });
        }
    }

    /// The lines of the projects panel.
    fn project_lines(&self) -> (r: Vec<String>)
        ensures
            line_views(r@) == project_rows(self@.tree.projects),
    {
        let projects = list_projects(&self.center);
        let mut out: Vec<String> = Vec::new();
        let mut i: usize = 0;
        while i < projects.len()
            invariant
                i <= projects.len(),
                projects@.len() == self.center@.projects.len(),
                forall|j: int|
                    0 <= j < projects@.len() ==> (#[trigger] projects@[j])@
                        == self.center@.projects[j],
                out@.len() == i,
                forall|j: int|
                    0 <= j < i ==> (#[trigger] out@[j])@ == project_line(self.center@.projects[j]),
            decreases projects.len() - i,
        {
            let line = match &projects[i].description {
                Some(d) => join4(projects[i].name.as_str(), " (", d.as_str(), ")"),
                None => projects[i].name.clone(),
            };
            assert(line@ == project_line(projects@[i as int]@));
            out.push(line);
            i += 1;
        }
        assert(line_views(out@) =~= project_rows(self.center@.projects));
        out
    }

    /// The lines of the environments panel: the names of the current
    /// project's environments.
    fn environment_lines(&self) -> (r: Vec<String>)
        ensures
            line_views(r@) == panel_lines(
                self@.tree,
                1,
                self@.current_project,
                self@.current_env,
                self@.server_running,
            ),
    {
        let mut out: Vec<String> = Vec::new();
        assert(line_views(out@) =~= Seq::empty());
        let project = match &self.current_project {
            Some(p) => p,
            None => {
                return out;
            },
        };
        match list_environments(&self.center, project.as_str()) {
            Ok(envs) => {
                let ghost all = self.center@.project(project@).environments;
                let mut i: usize = 0;
                while i < envs.len()
                    invariant
                        i <= envs.len(),
                        envs@.len() == all.len(),
                        forall|j: int| 0 <= j < envs@.len() ==> (#[trigger] envs@[j])@ == all[j],
                        out@.len() == i,
                        forall|j: int| 0 <= j < i ==> (#[trigger] out@[j])@ == all[j].name,
                    decreases envs.len() - i,
                {
                    out.push(envs[i].name.clone());
                    i += 1;
                }
                assert(line_views(out@) =~= env_rows(all));
            },
            Err(_) => {},
        }
        out
    }

    /// The lines of a list of items: `key = value`.
    fn item_lines(items: &Vec<&ConfigItem>) -> (r: Vec<String>)
        ensures
            r@.len() == items@.len(),
            forall|i: int| 0 <= i < r@.len() ==> (#[trigger] r@[i])@ == item_line(items@[i]@),
    {
        let mut out: Vec<String> = Vec::new();
        let mut i: usize = 0;
        while i < items.len()
            invariant
                i <= items.len(),
                out@.len() == i,
                forall|j: int| 0 <= j < i ==> (#[trigger] out@[j])@ == item_line(items@[j]@),
            decreases items.len() - i,
        {
            let value = shown(&items[i].value);
            out.push(join3(items[i].key.as_str(), " = ", value.as_str()));
            i += 1;
        }
        out
    }

    /// The lines of the API keys panel: `key (project)`.
    fn key_lines(&self) -> (r: Vec<String>)
        ensures
            line_views(r@) == panel_lines(
                self@.tree,
                4,
                self@.current_project,
                self@.current_env,
                self@.server_running,
            ),
    {
        let mut out: Vec<String> = Vec::new();
        assert(line_views(out@) =~= Seq::empty());
        let project = match &self.current_project {
            Some(p) => p,
            None => {
                return out;
            },
        };
        match list_api_keys(&self.center, project.as_str()) {
            Ok(keys) => {
                let ghost all = keys_of(self.center@.api_keys, project@);
                let mut i: usize = 0;
                while i < keys.len()
                    invariant
                        i <= keys.len(),
                        keys@.len() == all.len(),
                        forall|j: int| 0 <= j < keys@.len() ==> (#[trigger] keys@[j])@ == all[j],
                        out@.len() == i,
                        forall|j: int| 0 <= j < i ==> (#[trigger] out@[j])@ == key_line(all[j]),
                    decreases keys.len() - i,
                {
                    out.push(join4(keys[i].key.as_str(), " (", keys[i].project.as_str(), ")"));
                    i += 1;
                }
                assert(line_views(out@) =~= key_rows(all));
            },
            Err(_) => {},
        }
        out
    }

    /// The lines of the items panel: the items of the current project's
    /// current environment.
    fn config_lines(&self) -> (r: Vec<String>)
        ensures
            line_views(r@) == panel_lines(
                self@.tree,
                2,
                self@.current_project,
                self@.current_env,
                self@.server_running,
            ),
    {
        let project = self.project_or_empty();
        let env = self.env_or_default();
        match list_config_items(&self.center, project.as_str(), env.as_str()) {
            Ok(items) => {
                let out = App::item_lines(&items);
                assert(line_views(out@) =~= item_rows(
                    self.center@.project(project@).environment(env@).items,
                ));
                out
            },
            Err(_) => {
                let out: Vec<String> = Vec::new();
                assert(line_views(out@) =~= Seq::empty());
                out
            },
        }
    }

    /// The lines of the shared group panel: the items of the current
    /// shared environment.
    fn shared_lines(&self) -> (r: Vec<String>)
        ensures
            line_views(r@) == panel_lines(
                self@.tree,
                3,
                self@.current_project,
                self@.current_env,
                self@.server_running,
            ),
    {
        let env = self.env_or_default();
        match list_shared_items(&self.center, env.as_str()) {
            Ok(items) => {
                let out = App::item_lines(&items);
                assert(line_views(out@) =~= item_rows(self.center@.shared_env(env@).items));
                out
            },
            Err(_) => {
                let out: Vec<String> = Vec::new();
                assert(line_views(out@) =~= Seq::empty());
                out
            },
        }
    }

    /// The line of the server panel.
    fn server_lines(&self) -> (r: Vec<String>)
        ensures
            line_views(r@) == panel_lines(
                self@.tree,
                5,
                self@.current_project,
                self@.current_env,
                self@.server_running,
            ),
    {
        let line = if self.server_running {
            "Server: Running on :3000".to_owned()
        } else {
            "Server: Stopped".to_owned()
        };
        let out = vec![line];
        assert(line_views(out@) =~= seq![line@]);
        out
    }

    /// The current project, or the empty name.
    fn project_or_empty(&self) -> (r: String)
        ensures
            r@ == name_or_empty(self@.current_project),
    {
        match &self.current_project {
            Some(p) => p.clone(),
            None => String::new(),
        }
    }

    /// The current environment, or `default`.
    fn env_or_default(&self) -> (r: String)
        ensures
            r@ == chosen_env(self@.current_env),
    {
        match &self.current_env {
            Some(e) => e.clone(),
            None => "default".to_owned(),
        }
    }

    /// Fills the content area with the lines of the selected panel, for the
    /// project and the environment that the panel shows, and moves the
    /// content selection back into the lines.
    pub fn refresh_content(&mut self)
        ensures
            final(self)@ == old(self)@.refreshed(),
            final(self).store() == old(self).store(),
            final(self)@.shows_tree(),
            0 <= old(self)@.selected_menu < 6 ==> final(self)@.tidy(),
    {
        proof {
            lemma_refreshed(self@);
        }
        let lines = match MenuPanel::at(self.selected_menu) {
            MenuPanel::Projects => self.project_lines(),
            MenuPanel::Environments => {
                self.ensure_current_project();
                self.environment_lines()
            },
            MenuPanel::ConfigItems => {
                self.ensure_current_env();
                self.config_lines()
            },
            MenuPanel::SharedGroup => {
                self.ensure_current_env();
                self.shared_lines()
            },
            MenuPanel::ApiKeys => {
                self.ensure_current_project();
                self.key_lines()
            },
            MenuPanel::Server => self.server_lines(),
        };
        self.content_items = lines;
        if self.content_items.len() == 0 {
            self.content_selected = 0;
        } else if self.content_selected >= self.content_items.len() {
            self.content_selected = self.content_items.len() - 1;
        }
    }

    /// Makes the project after the current one the current one, the first
    /// after the last, and `default` the current environment; fills the
    /// content area in anew and names the project in the status line.
    /// Nothing changes where there is no project.
    fn cycle_project(&mut self)
        ensures
            final(self)@ == old(self)@.project_cycled(),
            final(self).store() == old(self).store(),
            final(self)@.selected_menu == old(self)@.selected_menu,
            final(self)@.focus == old(self)@.focus,
            final(self)@.running == old(self)@.running,
            final(self)@.input_mode == old(self)@.input_mode,
            final(self)@.server_running == old(self)@.server_running,
            old(self)@.tidy() ==> final(self)@.tidy(),
            old(self)@.shows_tree() ==> final(self)@.shows_tree(),
    {
        let count = self.center.state().projects.len();
        if count == 0 {
            return;
        }
        let current = self.project_or_empty();
        let at = match find_project(&self.center.state().projects, current.as_str()) {
            Some(i) => i,
            None => 0,
        };
        let following = if at + 1 >= count {
            0
        } else {
            at + 1
        };
        let name = self.center.state().projects[following].name.clone();
        let status = join2("Switched to project: ", name.as_str());
        self.current_project = Some(name);
        self.current_env = Some("default".to_owned());
        self.refresh_content();
        self.status_message = status;
    }

    /// The environments that the panel cycles through for a project: those
    /// of the shared group in its panel, those of the project elsewhere.
    /// `None` where the project is missing.
    fn envs_for_cycle(&self, project: &str) -> (r: Option<&Vec<Environment>>)
        ensures
            match r {
                Some(envs) => self@.envs_to_cycle(project@) == Some(lift(envs@)),
                None => self@.envs_to_cycle(project@) is None,
            },
    {
        match MenuPanel::at(self.selected_menu) {
            MenuPanel::SharedGroup => Some(envs_of(self.center.state(), Scope::Shared)),
            _ => match scope_of(self.center.state(), project) {
                Some(scope) => Some(envs_of(self.center.state(), scope)),
                None => None,
            },
        }
    }

    /// Makes the environment after the current one the current one, the
    /// first after the last; fills the content area in anew and names the
    /// environment in the status line. Nothing changes where no project is
    /// chosen, the project is missing, or there is no environment.
    fn cycle_env(&mut self)
        ensures
            final(self)@ == old(self)@.env_cycled(),
            final(self).store() == old(self).store(),
            final(self)@.selected_menu == old(self)@.selected_menu,
            final(self)@.focus == old(self)@.focus,
            final(self)@.running == old(self)@.running,
            final(self)@.input_mode == old(self)@.input_mode,
            final(self)@.server_running == old(self)@.server_running,
            old(self)@.tidy() ==> final(self)@.tidy(),
            old(self)@.shows_tree() ==> final(self)@.shows_tree(),
    {
        let project = match &self.current_project {
            Some(p) => p.clone(),
            None => {
                return;
            },
        };
        let current = match &self.current_env {
            Some(e) => e.clone(),
            None => String::new(),
        };
        let name = match self.envs_for_cycle(project.as_str()) {
            Some(envs) => {
                if envs.len() == 0 {
                    return;
                }
                let at = match find_environment(envs, current.as_str()) {
                    Some(i) => i,
                    None => 0,
                };
                let next = if at + 1 >= envs.len() {
                    0
                } else {
                    at + 1
                };
                envs[next].name.clone()
            },
            None => {
                return;
            },
        };
        let status = join2("Switched to env: ", name.as_str());
        self.current_env = Some(name);
        self.refresh_content();
        self.status_message = status;
    }

    /// Handles a key.
    ///
    /// While a form or a delete dialogue is open, the key goes to it. Else
    /// `q` closes the screen, the tabulator moves the focus, and any other
    /// key goes to the area that has the focus.
    pub fn handle_key(&mut self, key: Key)
        ensures
            old(self)@.key_result(key, final(self)@),
            final(self).store() == old(self).store() || final(self).store().rolled_back()
                == old(self)@.tree || final(self).store().rolled_back()
                == old(self)@.shared_ensured(chosen_env(old(self)@.current_env)),
            !old(self)@.may_change_tree(key) ==> final(self).store() == old(self).store(),
            old(self)@.tidy() ==> final(self)@.tidy(),
            old(self)@.shows_tree() ==> final(self)@.shows_tree(),
            old(self)@.tree.wf() ==> final(self)@.tree.wf(),
            old(self)@.input_mode != InputMode::Normal ==> {
                &&& final(self)@.running == old(self)@.running
                &&& final(self)@.focus == old(self)@.focus
                &&& final(self)@.selected_menu == old(self)@.selected_menu
            },
    {
        match self.input_mode {
            InputMode::Creating => {
                self.handle_create_key(key);
                return;
            },
            InputMode::Deleting => {
                self.handle_delete_key(key);
                return;
            },
            InputMode::Normal => {},
        }
        match key {
            Key::Char('q') => {
                self.running = false;
            },
            Key::Tab => {
                self.focus = match self.focus {
                    Focus::Menu => Focus::Content,
                    Focus::Content => Focus::Menu,
                };
            },
            _ => match self.focus {
                Focus::Menu => self.handle_menu_key(key),
                Focus::Content => self.handle_content_key(key),
            },
        }
    }

    /// Handles a key in the menu: up and down move the selection and fill
    /// the content area in anew, and Enter names the selected panel in the
    /// status line.
    fn handle_menu_key(&mut self, key: Key)
        requires
            old(self)@.input_mode == InputMode::Normal,
        ensures
            final(self)@ == old(self)@.after_menu_key(key),
            final(self).store() == old(self).store(),
            final(self)@.focus == old(self)@.focus,
            final(self)@.running == old(self)@.running,
            final(self)@.input_mode == InputMode::Normal,
            old(self)@.tidy() ==> final(self)@.tidy() && final(self)@.selected_menu
                == old(self)@.menu_after(key),
            old(self)@.shows_tree() ==> final(self)@.shows_tree(),
    {
        let before = self.selected_menu;
        match key {
            Key::Up => {
                if self.selected_menu > 0 {
                    self.selected_menu -= 1;
                }
            },
            Key::Down => {
                if self.selected_menu < 5 {
                    self.selected_menu += 1;
                }
            },
            Key::Enter => {
                let panel = MenuPanel::at(self.selected_menu);
                self.status_message = join2("Selected: ", panel.label());
            },
            _ => {},
        }
        if self.selected_menu != before {
            self.refresh_content();
        }
    }

    /// Handles a key in the content area, while no form or dialogue is
    /// open: up and down move the selection within the lines, `n` opens
    /// the form of a new entry, `d` the delete dialogue, `e` the form of
    /// the selected item; `p` and `v` take the next project and
    /// environment, and `s` toggles the server in its panel.
    fn handle_content_key(&mut self, key: Key)
        requires
            old(self)@.input_mode == InputMode::Normal,
            old(self)@.focus == Focus::Content,
        ensures
            old(self)@.content_key_result(key, final(self)@),
            final(self).store() == old(self).store() || final(self).store().rolled_back()
                == old(self)@.tree,
            final(self)@.focus == old(self)@.focus,
            final(self)@.selected_menu == old(self)@.selected_menu,
            final(self)@.running == old(self)@.running,
            old(self)@.tidy() ==> final(self)@.tidy(),
            old(self)@.shows_tree() ==> final(self)@.shows_tree(),
            old(self)@.tree.wf() ==> final(self)@.tree.wf(),
            !old(self)@.may_change_tree(key) ==> final(self).store() == old(self).store(),
    {
        match key {
            Key::Up => {
                if self.content_selected > 0 {
                    self.content_selected -= 1;
                }
            },
            Key::Down => {
                if self.content_items.len() > 0 && self.content_selected < self.content_items.len()
                    - 1 {
                    self.content_selected += 1;
                }
            },
            Key::Char('n') => {
                self.start_creating();
            },
            Key::Char('d') => {
                if self.content_items.len() > 0 {
                    self.input_mode = InputMode::Deleting;
                    self.status_message = "Delete? y=confirm, n/Esc=cancel".to_owned();
                }
            },
            Key::Char('e') => {
                self.start_editing();
            },
            Key::Char('p') => {
                self.cycle_project();
            },
            Key::Char('v') => {
                self.cycle_env();
            },
            Key::Char('s') => {
                match MenuPanel::at(self.selected_menu) {
                    MenuPanel::Server => {
                        self.server_running = !self.server_running;
                        self.refresh_content();
                        let status = if self.server_running {
                            "Server started on :3000 (hint: run `cargo run -- serve` in terminal)"
                        } else {
                            "Server stopped"
                        };
                        self.status_message = status.to_owned();
                    },
                    _ => {},
                }
            },
            _ => {},
        }
    }

    /// A form with the given labels and empty values.
    fn blank_form(labels: Vec<&str>) -> (r: Vec<(String, String)>)
        ensures
            field_texts(r@) == blank(label_texts(labels@)),
            r@.len() == labels@.len(),
            forall|i: int|
                0 <= i < r@.len() ==> (#[trigger] r@[i]).0@ == labels@[i]@ && r@[i].1@.len() == 0,
    {
        let mut out: Vec<(String, String)> = Vec::new();
        let mut i: usize = 0;
        while i < labels.len()
            invariant
                i <= labels.len(),
                out@.len() == i,
                forall|j: int|
                    0 <= j < i ==> (#[trigger] out@[j]).0@ == labels@[j]@ && out@[j].1@
                        == Seq::<char>::empty(),
            decreases labels.len() - i,
        {
            out.push((labels[i].to_owned(), String::new()));
            i += 1;
        }
        assert(field_texts(out@) =~= blank(label_texts(labels@)));
        out
    }

    /// Opens the form of a new entry of the selected panel, for the
    /// project and the environment that the panel shows, or tells in the
    /// status line why it does not. In the API keys panel a key is
    /// generated at once for the project that the panel shows.
    fn start_creating(&mut self)
        requires
            old(self)@.input_mode == InputMode::Normal,
        ensures
            old(self)@.start_result(final(self)@),
            final(self).store() == old(self).store() || final(self).store().rolled_back()
                == old(self)@.tree,
            final(self)@.focus == old(self)@.focus,
            final(self)@.selected_menu == old(self)@.selected_menu,
            final(self)@.running == old(self)@.running,
            old(self)@.tidy() ==> final(self)@.tidy(),
            old(self)@.shows_tree() ==> final(self)@.shows_tree(),
            old(self)@.tree.wf() ==> final(self)@.tree.wf(),
            old(self)@.selected_menu != 4 ==> final(self).store() == old(self).store(),
    {
        match MenuPanel::at(self.selected_menu) {
            MenuPanel::Projects => {
                let labels = vec!["Name", "Description"];
                assert(label_texts(labels@) =~= seq!["Name"@, "Description"@]);
                self.input_fields = App::blank_form(labels);
            },
            MenuPanel::Environments => {
                self.ensure_current_project();
                if self.current_project.is_none() {
                    self.status_message =
                    "Error: no project selected, create a project first".to_owned();
                    return;
                }
                let labels = vec!["Name"];
                assert(label_texts(labels@) =~= seq!["Name"@]);
                self.input_fields = App::blank_form(labels);
            },
            MenuPanel::ConfigItems => {
                self.ensure_current_env();
                if self.current_project.is_none() {
                    self.status_message = "Error: no project selected".to_owned();
                    return;
                }
                let labels = vec!["Key", "Value"];
                assert(label_texts(labels@) =~= seq!["Key"@, "Value"@]);
                self.input_fields = App::blank_form(labels);
            },
            MenuPanel::SharedGroup => {
                self.ensure_current_env();
                let labels = vec!["Key", "Value"];
                assert(label_texts(labels@) =~= seq!["Key"@, "Value"@]);
                self.input_fields = App::blank_form(labels);
            },
            MenuPanel::ApiKeys => {
                self.ensure_current_project();
                let project = match &self.current_project {
                    Some(p) => p.clone(),
                    None => {
                        self.status_message = "Error: no project selected".to_owned();
                        return;
                    },
                };
                match generate_api_key(&mut self.center, project.as_str()) {
                    Ok(key) => {
                        let status = join2("API Key generated: ", key.key.as_str());
                        self.refresh_content();
                        self.status_message = status;
                        assert(self@ == old(self)@.key_generated(key.key@));
                    },
                    Err(e) => {
                        self.status_message = error_status(&e);
                    },
                }
                return;
            },
            MenuPanel::Server => {
                self.status_message = "Use 's' to toggle server".to_owned();
                return;
            },
        }
        self.input_field = 0;
        self.input_mode = InputMode::Creating;
        self.status_message = "Creating... Tab=next field, Enter=confirm, Esc=cancel".to_owned();
    }

    /// Opens the form of the selected item, filled in, with the input on
    /// its value. Only items can be edited.
    fn start_editing(&mut self)
        requires
            old(self)@.input_mode == InputMode::Normal,
        ensures
            final(self)@ == old(self)@.editing(),
            final(self).store() == old(self).store(),
            final(self)@ == (AppView {
                status: final(self)@.status,
                input_mode: final(self)@.input_mode,
                input_field: final(self)@.input_field,
                fields: final(self)@.fields,
                ..old(self)@
            }),
    {
        if self.content_items.len() == 0 || self.content_selected >= self.content_items.len() {
            return;
        }
        match MenuPanel::at(self.selected_menu) {
            MenuPanel::ConfigItems | MenuPanel::SharedGroup => {
                let line = self.content_items[self.content_selected].as_str();
                let value = match text_after(line, " = ") {
                    Some(v) => v,
                    None => {
                        return;
                    },
                };
                let key = text_before(line, " = ");
                self.input_fields = vec![("Key".to_owned(), key), ("Value".to_owned(), value)];
                assert(field_texts(self.input_fields@) =~= seq![
                    ("Key"@, key@),
                    ("Value"@, value@),
                ]);
                self.input_field = 1;
                self.input_mode = InputMode::Creating;
                self.status_message =
                "Editing... Tab=next field, Enter=confirm, Esc=cancel".to_owned();
            },
            _ => {},
        }
    }

    /// Handles a key while a form is open: Esc closes it, the tabulator
    /// moves between the fields, Enter confirms, Backspace removes the
    /// last character of the field, and a character is appended to it.
    fn handle_create_key(&mut self, key: Key)
        requires
            old(self)@.input_mode == InputMode::Creating,
        ensures
            final(self)@ == old(self)@.after_create_key(key),
            final(self).store() == old(self).store() || final(self).store().rolled_back()
                == old(self)@.tree || final(self).store().rolled_back()
                == old(self)@.shared_ensured(chosen_env(old(self)@.current_env)),
            final(self)@.focus == old(self)@.focus,
            final(self)@.selected_menu == old(self)@.selected_menu,
            final(self)@.running == old(self)@.running,
            old(self)@.tidy() ==> final(self)@.tidy(),
            old(self)@.shows_tree() ==> final(self)@.shows_tree(),
            old(self)@.tree.wf() ==> final(self)@.tree.wf(),
            key != Key::Enter ==> final(self).store() == old(self).store(),
    {
        match key {
            Key::Esc => {
                self.input_mode = InputMode::Normal;
                self.input_fields = Vec::new();
                self.status_message = "Cancelled".to_owned();
                assert(field_texts(self.input_fields@) =~= Seq::empty());
            },
            Key::Tab => {
                if self.input_fields.len() > 0 {
                    self.input_field = if self.input_field < usize::MAX {
                        (self.input_field + 1) % self.input_fields.len()
                    } else {
                        0
                    };
                }
            },
            Key::BackTab => {
                if self.input_fields.len() > 0 && self.input_field > 0 {
                    self.input_field -= 1;
                }
            },
            Key::Enter => {
                self.confirm_create();
            },
            Key::Backspace => {
                if self.input_field < self.input_fields.len() {
                    let ghost before = field_texts(self.input_fields@);
                    let ghost at = self.input_field as int;
                    pop_char(&mut self.input_fields[self.input_field].1);
                    assert(field_texts(self.input_fields@) =~= before.update(
                        at,
                        (
                            before[at].0,
                            if before[at].1.len() > 0 {
                                before[at].1.drop_last()
                            } else {
                                before[at].1
                            },
                        ),
                    ));
                }
            },
            Key::Char(c) => {
                if self.input_field < self.input_fields.len() {
                    let ghost before = field_texts(self.input_fields@);
                    let ghost at = self.input_field as int;
                    push_char(&mut self.input_fields[self.input_field].1, c);
                    assert(field_texts(self.input_fields@) =~= before.update(
                        at,
                        (before[at].0, before[at].1.push(c)),
                    ));
                }
            },
            _ => {},
        }
    }

    /// The value of a field of the form, without the white space at its
    /// ends; empty where the form has no such field.
    fn field_value(&self, index: usize) -> (r: String)
        ensures
            r@ == self@.field_text(index as int),
    {
        if index < self.input_fields.len() {
            trim_text(self.input_fields[index].1.as_str())
        } else {
            String::new()
        }
    }

    /// The value that a text stands for: what the text holds as JSON, or
    /// the text itself as a string where it is no JSON document.
    pub fn parse_json_value(raw: &str) -> (r: ConfigValue)
        ensures
            match crate::json::parsed_json(raw@) {
                Some(v) => r@ == v,
                None => r@ == JsonView::String(raw@),
            },
    {
        match json_parse(raw) {
            Ok(v) => v,
            Err(_) => ConfigValue::String(raw.to_owned()),
        }
    }

    /// Closes the form and fills the content area in anew.
    fn close_form(&mut self)
        ensures
            final(self)@ == (AppView {
                input_mode: InputMode::Normal,
                fields: Seq::empty(),
                ..old(self)@
            }).refreshed(),
            final(self).store() == old(self).store(),
            final(self)@.focus == old(self)@.focus,
            final(self)@.selected_menu == old(self)@.selected_menu,
            final(self)@.running == old(self)@.running,
            final(self)@.status == old(self)@.status,
            final(self)@.input_mode == InputMode::Normal,
            final(self)@.fields.len() == 0,
            final(self)@.shows_tree(),
            0 <= old(self)@.selected_menu < 6 ==> final(self)@.tidy(),
    {
        self.input_mode = InputMode::Normal;
        self.input_fields = Vec::new();
        assert(field_texts(self.input_fields@) =~= Seq::empty());
        self.refresh_content();
    }

    /// Confirms the form: creates the entry, or updates the item where an
    /// item of that key exists, and closes the form. An empty name or key
    /// leaves the form open and the tree as it is.
    fn confirm_create(&mut self)
        ensures
            final(self)@ == old(self)@.created(),
            final(self).store() == old(self).store() || final(self).store().rolled_back()
                == old(self)@.tree || final(self).store().rolled_back()
                == old(self)@.shared_ensured(chosen_env(old(self)@.current_env)),
            final(self)@.focus == old(self)@.focus,
            final(self)@.selected_menu == old(self)@.selected_menu,
            final(self)@.running == old(self)@.running,
            final(self)@.input_mode == InputMode::Normal || final(self).store()
                == old(self).store(),
            old(self)@.tidy() ==> final(self)@.tidy(),
            old(self)@.shows_tree() ==> final(self)@.shows_tree(),
            old(self)@.tree.wf() ==> final(self)@.tree.wf(),
    {
        match MenuPanel::at(self.selected_menu) {
            MenuPanel::Projects => {
                let name = self.field_value(0);
                let description = self.field_value(1);
                if name.as_str().unicode_len() == 0 {
                    self.status_message = "Error: name cannot be empty".to_owned();
                    return;
                }
                let described = if description.as_str().unicode_len() == 0 {
                    None
                } else {
                    Some(description.as_str())
                };
                self.status_message = match create_project(
                    &mut self.center,
                    name.as_str(),
                    described,
                ) {
                    Ok(_) => join3("Project '", name.as_str(), "' created"),
                    Err(e) => error_status(&e),
                };
            },
            MenuPanel::Environments => {
                let name = self.field_value(0);
                if name.as_str().unicode_len() == 0 {
                    self.status_message = "Error: name cannot be empty".to_owned();
                    return;
                }
                let project = self.project_or_empty();
                self.status_message = match create_environment(
                    &mut self.center,
                    project.as_str(),
                    name.as_str(),
                ) {
                    Ok(_) => join3("Environment '", name.as_str(), "' created"),
                    Err(e) => error_status(&e),
                };
            },
            MenuPanel::ConfigItems => {
                let key = self.field_value(0);
                let raw = self.field_value(1);
                if key.as_str().unicode_len() == 0 {
                    self.status_message = "Error: key cannot be empty".to_owned();
                    return;
                }
                let value = App::parse_json_value(raw.as_str());
                let project = self.project_or_empty();
                let env = self.env_or_default();
                self.status_message = match update_config_item(
                    &mut self.center,
                    project.as_str(),
                    env.as_str(),
                    key.as_str(),
                    value.clone(),
                ) {
                    Ok(_) => join3("Config '", key.as_str(), "' updated"),
                    Err(_) => match create_config_item(
                        &mut self.center,
                        project.as_str(),
                        env.as_str(),
                        key.as_str(),
                        value,
                    ) {
                        Ok(_) => join3("Config '", key.as_str(), "' created"),
                        Err(e) => error_status(&e),
                    },
                };
            },
            MenuPanel::SharedGroup => {
                let key = self.field_value(0);
                let raw = self.field_value(1);
                if key.as_str().unicode_len() == 0 {
                    self.status_message = "Error: key cannot be empty".to_owned();
                    return;
                }
                let value = App::parse_json_value(raw.as_str());
                let env = self.env_or_default();
                self.ensure_shared_env(env.as_str());
                self.status_message = match update_shared_item(
                    &mut self.center,
                    env.as_str(),
                    key.as_str(),
                    value.clone(),
                ) {
                    Ok(_) => join3("Shared config '", key.as_str(), "' updated"),
                    Err(_) => match create_shared_item(
                        &mut self.center,
                        env.as_str(),
                        key.as_str(),
                        value,
                    ) {
                        Ok(_) => join3("Shared config '", key.as_str(), "' created"),
                        Err(e) => error_status(&e),
                    },
                };
            },
            _ => {
                self.status_message = "Not supported".to_owned();
            },
        }
        self.close_form();
    }

    /// Handles a key while the delete dialogue is open: `y` deletes, `n`
    /// and Esc close the dialogue.
    fn handle_delete_key(&mut self, key: Key)
        requires
            old(self)@.input_mode == InputMode::Deleting,
        ensures
            final(self)@ == old(self)@.after_delete_key(key),
            final(self).store() == old(self).store() || final(self).store().rolled_back()
                == old(self)@.tree,
            final(self)@.focus == old(self)@.focus,
            final(self)@.selected_menu == old(self)@.selected_menu,
            final(self)@.running == old(self)@.running,
            old(self)@.tidy() ==> final(self)@.tidy(),
            old(self)@.shows_tree() ==> final(self)@.shows_tree(),
            old(self)@.tree.wf() ==> final(self)@.tree.wf(),
            key != Key::Char('y') ==> final(self).store() == old(self).store(),
    {
        match key {
            Key::Char('y') => {
                self.confirm_delete();
            },
            Key::Char('n') | Key::Esc => {
                self.input_mode = InputMode::Normal;
                self.status_message = "Cancelled".to_owned();
            },
            _ => {},
        }
    }

    /// The selected line of the content area.
    fn selected_line(&self) -> (r: Option<&str>)
        ensures
            r is Some <==> self@.content_selected < self@.content.len(),
            r matches Some(line) ==> line@ == self@.content[self@.content_selected],
    {
        if self.content_selected < self.content_items.len() {
            Some(self.content_items[self.content_selected].as_str())
        } else {
            None
        }
    }

    /// Deletes the entry that the selected line stands for, closes the
    /// dialogue and fills the content area in anew.
    fn confirm_delete(&mut self)
        ensures
            final(self)@ == old(self)@.deleted(),
            final(self).store() == old(self).store() || final(self).store().rolled_back()
                == old(self)@.tree,
            final(self)@.focus == old(self)@.focus,
            final(self)@.selected_menu == old(self)@.selected_menu,
            final(self)@.running == old(self)@.running,
            final(self)@.input_mode == InputMode::Normal,
            final(self)@.shows_tree(),
            old(self)@.tidy() ==> final(self)@.tidy(),
            old(self)@.tree.wf() ==> final(self)@.tree.wf(),
    {
        let line = match self.selected_line() {
            Some(l) => Some(l.to_owned()),
            None => None,
        };
        match MenuPanel::at(self.selected_menu) {
            MenuPanel::Projects => match line {
                Some(l) => {
                    let name = text_before(l.as_str(), " (");
                    self.status_message = match delete_project(&mut self.center, name.as_str()) {
                        Ok(_) => join3("Project '", name.as_str(), "' deleted"),
                        Err(e) => error_status(&e),
                    };
                },
                None => {},
            },
            MenuPanel::Environments => match line {
                Some(name) => {
                    let project = self.project_or_empty();
                    self.status_message = match delete_environment(
                        &mut self.center,
                        project.as_str(),
                        name.as_str(),
                    ) {
                        Ok(_) => join3("Environment '", name.as_str(), "' deleted"),
                        Err(e) => error_status(&e),
                    };
                },
                None => {},
            },
            MenuPanel::ConfigItems => match line {
                Some(l) => {
                    let key = text_before(l.as_str(), " = ");
                    let project = self.project_or_empty();
                    let env = self.env_or_default();
                    self.status_message = match delete_config_item(
                        &mut self.center,
                        project.as_str(),
                        env.as_str(),
                        key.as_str(),
                    ) {
                        Ok(_) => join3("Config '", key.as_str(), "' deleted"),
                        Err(e) => error_status(&e),
                    };
                },
                None => {},
            },
            MenuPanel::SharedGroup => match line {
                Some(l) => {
                    let key = text_before(l.as_str(), " = ");
                    let env = self.env_or_default();
                    self.status_message = match delete_shared_item(
                        &mut self.center,
                        env.as_str(),
                        key.as_str(),
                    ) {
                        Ok(_) => join3("Shared config '", key.as_str(), "' deleted"),
                        Err(e) => error_status(&e),
                    };
                },
                None => {},
            },
            MenuPanel::ApiKeys => match line {
                Some(l) => {
                    let token = text_before(l.as_str(), " (");
                    self.status_message = match revoke_api_key(&mut self.center, token.as_str()) {
                        Ok(_) => join2("API Key revoked: ", token.as_str()),
                        Err(e) => error_status(&e),
                    };
                },
                None => {},
            },
            MenuPanel::Server => {
                self.status_message = "Use 's' to toggle server".to_owned();
            },
        }
        self.input_mode = InputMode::Normal;
        self.refresh_content();
    }

    /// The title of the content area for a panel, with the project and
    /// the environment that it shows.
    pub fn content_title(&self, panel: MenuPanel) -> (r: String)
        ensures
            r@ == title_text(panel, self@.current_project, self@.current_env),
    {
        let project = match &self.current_project {
            Some(p) => p.clone(),
            None => "none".to_owned(),
        };
        let env = self.env_or_default();
        match panel {
            MenuPanel::Projects => " Projects ".to_owned(),
            MenuPanel::Environments => join3(" Environments [project: ", project.as_str(), "] "),
            MenuPanel::ConfigItems => {
                let head = join4(" Config Items [", project.as_str(), ":", env.as_str());
                join2(head.as_str(), "] (p=project, v=env) ")
            },
            MenuPanel::SharedGroup => join3(" Shared Group [env: ", env.as_str(), "] (v=env) "),
            MenuPanel::ApiKeys => join3(" API Keys [project: ", project.as_str(), "] (p=project) "),
            MenuPanel::Server => " Server ".to_owned(),
        }
    }
}

} // verus!
