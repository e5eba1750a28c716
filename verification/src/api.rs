//! What the HTTP layer decides: whether a request is authorized, what it
//! is answered with, and with which status.
use crate::api_key::validate_api_key;
use crate::center::ConfigCenter;
use crate::error::{ConfigError, ErrorView};
use crate::export::{env_vars, is_export_of};
use crate::merge::MergedConfig;
use crate::models::{has_key, lookup, str_of, text_of, StateView};
use crate::storage::Storage;
use crate::substitute::Variables;
use crate::text::{chars_of, same_text, string_of};
use crate::value::ConfigValue;
use vstd::prelude::*;
use vstd::string::StringExecFns;

verus! {

/// The answer to a request for all items of an environment.
#[derive(Debug, PartialEq)]
pub struct AllConfigsResponse {
    pub project: String,
    pub environment: String,
    pub configs: MergedConfig,
    pub env_vars: MergedConfig,
}

/// The answer to a request for one item.
#[derive(Debug, PartialEq)]
pub struct SingleConfigResponse {
    pub key: String,
    pub value: ConfigValue,
}

/// The body of an answer that reports an error.
#[derive(Debug, PartialEq)]
pub struct ErrorResponse {
    pub error: String,
}

/// The parameters of a request for environment variables.
#[derive(Debug, PartialEq)]
pub struct ExportParams {
    pub prefix: Option<String>,
}

/// A request that is turned away: the status and the body of the answer.
#[derive(Debug, PartialEq)]
pub struct Rejection {
    pub status: u16,
    pub body: ErrorResponse,
}

impl Default for ExportParams {
    fn default() -> (r: ExportParams)
        ensures
            r.prefix is None,
    {
        ExportParams { prefix: None }
    }
}

/// The first index at or after `from` that holds no `/`; the length of
/// the path where there is none.
pub open spec fn segment_start(path: Seq<char>, from: int) -> int
    decreases path.len() - from,
{
    if from < 0 || from >= path.len() {
        path.len() as int
    } else if path[from] != '/' {
        from
    } else {
        segment_start(path, from + 1)
    }
}

/// The first index at or after `from` that holds `/`; the length of the
/// path where there is none.
pub open spec fn segment_end(path: Seq<char>, from: int) -> int
    decreases path.len() - from,
{
    if from < 0 || from >= path.len() {
        path.len() as int
    } else if path[from] == '/' {
        from
    } else {
        segment_end(path, from + 1)
    }
}

/// A search for the end of a segment ends after its start.
pub proof fn lemma_segment_bounds(path: Seq<char>, from: int)
    requires
        0 <= from <= path.len(),
    ensures
        from <= segment_start(path, from) <= path.len(),
        from <= segment_end(path, from) <= path.len(),
        segment_start(path, from) < path.len() ==> segment_start(path, from) < segment_end(
            path,
            segment_start(path, from),
        ) <= path.len(),
    decreases path.len() - from,
{
    if from < path.len() {
        lemma_segment_bounds(path, from + 1);
        if path[from] != '/' {
            assert(segment_end(path, from) == segment_end(path, from + 1));
        }
    }
}

/// The segment number `n`, counted from 0, among the non-empty segments
/// of a path from index `from` on; segments are separated by `/`.
pub open spec fn segment(path: Seq<char>, from: int, n: nat) -> Option<Seq<char>>
    decreases path.len() - from,
{
    if from < 0 || from > path.len() {
        None
    } else {
        let start = segment_start(path, from);
        let end = segment_end(path, start);
        if start >= path.len() {
            None
        } else if n == 0 {
            Some(path.subrange(start, end))
        } else {
            proof {
                lemma_segment_bounds(path, from);
            }
            segment(path, end, (n - 1) as nat)
        }
    }
}

/// The project that a request path addresses: the fourth non-empty
/// segment, as in `/api/v1/projects/{project}/...`.
pub open spec fn addressed_project(path: Seq<char>) -> Option<Seq<char>> {
    segment(path, 0, 3)
}

/// The segment number `n`, counted from 0, among the non-empty segments
/// of a path.
pub fn path_segment(path: &str, n: usize) -> (r: Option<String>)
    ensures
        text_of(r) == segment(path@, 0, n as nat),
{
    let chars = chars_of(path);
    let len = chars.len();
    let mut from: usize = 0;
    let mut left: usize = n;
    loop
        invariant
            from <= len,
            len == chars.len(),
            chars@ == path@,
            segment(path@, 0, n as nat) == segment(path@, from as int, left as nat),
        decreases len - from,
    {
        proof {
            lemma_segment_bounds(chars@, from as int);
        }
        let mut start: usize = from;
        while start < len && chars[start] == '/'
            invariant
                from <= start <= len,
                len == chars.len(),
                segment_start(chars@, from as int) == segment_start(chars@, start as int),
            decreases len - start,
        {
            start += 1;
        }
        if start >= len {
            return None;
        }
        let mut end: usize = start;
        while end < len && chars[end] != '/'
            invariant
                start <= end <= len,
                len == chars.len(),
                segment_end(chars@, start as int) == segment_end(chars@, end as int),
            decreases len - end,
        {
            end += 1;
        }
        if left == 0 {
            return Some(string_of(&chars, start, end));
        }
        left -= 1;
        from = end;
    }
}

/// The text that tells which project a key is not authorized for.
pub open spec fn not_authorized_for(project: Seq<char>) -> Seq<char> {
    "api key not authorized for project: "@ + project
}

impl StateView {
    /// Why a request for a project is turned away: `Unauthorized` where no
    /// key is presented or the key is unknown; `Forbidden` where the key
    /// is bound to another project.
    pub open spec fn request_error(self, api_key: Option<Seq<char>>, project: Seq<char>) -> Option<
        ErrorView,
    > {
        match api_key {
            None => Some(ErrorView::Unauthorized("missing X-API-Key header"@)),
            Some(key) => if !has_key(self.api_keys, key) {
                Some(ErrorView::Unauthorized("invalid api key"@))
            } else if lookup(self.api_keys, key).project != project {
                Some(ErrorView::Forbidden(not_authorized_for(project)))
            } else {
                None
            },
        }
    }

    /// The status and message with which the middleware turns a request
    /// away: 401 where no key is presented or the key is unknown; 403
    /// where the path addresses a project and the key is bound to another.
    pub open spec fn rejection(self, api_key: Option<Seq<char>>, path: Seq<char>) -> Option<
        (int, Seq<char>),
    > {
        match api_key {
            None => Some((401, "missing X-API-Key header"@)),
            Some(key) => if !has_key(self.api_keys, key) {
                Some((401, "invalid api key"@))
            } else {
                match addressed_project(path) {
                    Some(project) => if lookup(self.api_keys, key).project != project {
                        Some((403, not_authorized_for(project)))
                    } else {
                        None
                    },
                    None => None,
                }
            },
        }
    }
}

/// An unknown key is unauthorized; a key of one project presented for
/// another is forbidden, not unauthorized; the key's own project is let
/// through.
pub proof fn law_access_control(s: StateView, key: Seq<char>, target: Seq<char>)
    ensures
        !has_key(s.api_keys, key) ==> s.request_error(Some(key), target) matches Some(
            ErrorView::Unauthorized(_),
        ),
        has_key(s.api_keys, key) && lookup(s.api_keys, key).project != target ==> s.request_error(
            Some(key),
            target,
        ) matches Some(ErrorView::Forbidden(_)),
        has_key(s.api_keys, key) && lookup(s.api_keys, key).project == target ==> s.request_error(
            Some(key),
            target,
        ) is None,
{
}

/// The message that a key is not authorized for a project.
fn forbidden_message(project: &str) -> (r: String)
    ensures
        r@ == not_authorized_for(project@),
{
    let mut message = String::from_str("api key not authorized for project: ");
    message.append(project);
    message
}

/// Decides whether a request for a project may pass, from the API key
/// that it presents.
///
/// Fails with `Unauthorized` where no key is presented or the key is
/// unknown, and with `Forbidden` where the key is bound to another
/// project.
pub fn validate_request(center: &ConfigCenter, api_key: Option<&str>, project: &str) -> (r: Result<
    (),
    ConfigError,
>)
    ensures
        r is Ok <==> center@.request_error(str_of(api_key), project@) is None,
        r matches Err(e) ==> Some(e@) == center@.request_error(str_of(api_key), project@),
{
    let key = match api_key {
        Some(k) => k,
        None => {
            return Err(ConfigError::Unauthorized("missing X-API-Key header".to_owned()));
        },
    };
    let (key_project, _) = match center.validate_api_key(key) {
        Ok(found) => found,
        Err(e) => {
            return Err(e);
        },
    };
    if !same_text(key_project, project) {
        return Err(ConfigError::Forbidden(forbidden_message(project)));
    }
    Ok(())
}

/// The model of a rejection: its status and its message.
pub open spec fn rejection_of(r: Result<(), Rejection>) -> Option<(int, Seq<char>)> {
    match r {
        Ok(_) => None,
        Err(x) => Some((x.status as int, x.body.error@)),
    }
}

/// A rejection with a status and a message.
fn reject(status: u16, message: String) -> (r: Result<(), Rejection>)
    ensures
        rejection_of(r) == Some((status as int, message@)),
{
    Err(Rejection { status: status, body: ErrorResponse { error: message } })
}

/// Decides whether a request may pass the authentication middleware, from
/// the API key that it presents and the path that it addresses.
///
/// Turns the request away with 401 where no key is presented or the key is
/// unknown, and with 403 where the path addresses a project and the key
/// is bound to another.
pub fn auth_middleware(storage: &Storage, api_key: Option<&str>, path: &str) -> (r: Result<
    (),
    Rejection,
>)
    ensures
        rejection_of(r) == storage@.rejection(str_of(api_key), path@),
{
    let key = match api_key {
        Some(k) => k,
        None => {
            return reject(401, "missing X-API-Key header".to_owned());
        },
    };
    let requested = path_segment(path, 3);
    match validate_api_key(storage, key) {
        Ok(info) => {
            match requested {
                Some(project) => {
                    if !(info.project == project) {
                        return reject(403, forbidden_message(project.as_str()));
                    }
                },
                None => {},
            }
            Ok(())
        },
        Err(ConfigError::Unauthorized(message)) => reject(401, message),
        Err(_) => reject(500, "internal error".to_owned()),
    }
}

impl StateView {
    /// Why a request for the items of an environment fails: it is turned
    /// away, else the project or the environment is missing.
    pub open spec fn configs_error(
        self,
        api_key: Option<Seq<char>>,
        project: Seq<char>,
        env: Seq<char>,
    ) -> Option<ErrorView> {
        if self.request_error(api_key, project) is Some {
            self.request_error(api_key, project)
        } else {
            self.environment_error(project, env)
        }
    }

    /// Why a request for one item fails: it is turned away, else the
    /// project or the environment is missing, else neither tier has the
    /// key.
    pub open spec fn config_item_error(
        self,
        api_key: Option<Seq<char>>,
        project: Seq<char>,
        env: Seq<char>,
        key: Seq<char>,
        vars: Seq<(Seq<char>, Seq<char>)>,
    ) -> Option<ErrorView> {
        if self.request_error(api_key, project) is Some {
            self.request_error(api_key, project)
        } else {
            self.resolve_with_error(project, env, key, vars)
        }
    }
}

/// Answers a request for all items of a project's environment: the
/// effective configuration, and the same under the names of environment
/// variables.
pub fn get_all_configs(
    center: &ConfigCenter,
    api_key: Option<&str>,
    project: &str,
    env: &str,
    params: &ExportParams,
    vars: &Variables,
) -> (r: Result<AllConfigsResponse, ConfigError>)
    ensures
        r is Ok <==> center@.configs_error(str_of(api_key), project@, env@) is None,
        r matches Ok(answer) ==> {
            &&& answer.project@ == project@
            &&& answer.environment@ == env@
            &&& answer.configs@ == center@.resolve_with(project@, env@, vars@)
            &&& answer.env_vars@ == env_vars(
                center@.resolve_with(project@, env@, vars@),
                text_of(params.prefix),
            )
        },
        r matches Err(e) ==> Some(e@) == center@.configs_error(str_of(api_key), project@, env@),
{
    match validate_request(center, api_key, project) {
        Ok(_) => {},
        Err(e) => {
            return Err(e);
        },
    }
    let configs = match center.get_merged_config(project, env, vars) {
        Ok(m) => m,
        Err(e) => {
            return Err(e);
        },
    };
    let prefix = match &params.prefix {
        Some(p) => Some(p.as_str()),
        None => None,
    };
    let variables = match center.get_env_vars(project, env, prefix, vars) {
        Ok(m) => m,
        Err(e) => {
            return Err(e);
        },
    };
    Ok(
        AllConfigsResponse {
            project: project.to_owned(),
            environment: env.to_owned(),
            configs: configs,
            env_vars: variables,
        },
    )
}

/// Answers a request for one item of a project's environment.
pub fn get_single_config(
    center: &ConfigCenter,
    api_key: Option<&str>,
    project: &str,
    env: &str,
    key: &str,
    vars: &Variables,
) -> (r: Result<SingleConfigResponse, ConfigError>)
    ensures
        r is Ok <==> center@.config_item_error(str_of(api_key), project@, env@, key@, vars@)
            is None,
        r matches Ok(answer) ==> {
            &&& answer.key@ == key@
            &&& answer.value@ == lookup(center@.resolve_with(project@, env@, vars@), key@).value
        },
        r matches Err(e) ==> Some(e@) == center@.config_item_error(
            str_of(api_key),
            project@,
            env@,
            key@,
            vars@,
        ),
{
    match validate_request(center, api_key, project) {
        Ok(_) => {},
        Err(e) => {
            return Err(e);
        },
    }
    match center.get_merged_config_item(project, env, key, vars) {
        Ok(value) => Ok(SingleConfigResponse { key: key.to_owned(), value: value }),
        Err(e) => Err(e),
    }
}

/// Answers a request for the export script of a project's environment.
pub fn export_env(
    center: &ConfigCenter,
    api_key: Option<&str>,
    project: &str,
    env: &str,
    params: &ExportParams,
    vars: &Variables,
) -> (r: Result<String, ConfigError>)
    ensures
        r is Ok <==> center@.configs_error(str_of(api_key), project@, env@) is None,
        r matches Ok(text) ==> is_export_of(
            text@,
            env_vars(center@.resolve_with(project@, env@, vars@), text_of(params.prefix)),
        ),
        r matches Err(e) ==> Some(e@) == center@.configs_error(str_of(api_key), project@, env@),
{
    match validate_request(center, api_key, project) {
        Ok(_) => {},
        Err(e) => {
            return Err(e);
        },
    }
    let prefix = match &params.prefix {
        Some(p) => Some(p.as_str()),
        None => None,
    };
    center.get_env_export(project, env, prefix, vars)
}

} // verus!
