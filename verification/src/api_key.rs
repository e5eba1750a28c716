//! API keys: generate, revoke, list, validate. A key authorizes exactly
//! one project.
use crate::error::{ConfigError, ErrorView};
use crate::models::{
    find_api_key, find_project, has_key, lemma_position, lift, lookup, position, ApiKey,
    ApiKeyView, StateView,
};
use crate::storage::Storage;
use crate::tree::{push_lifted, remove_lifted};
use crate::undo::{undone, Undo, UndoView};
use vstd::prelude::*;

verus! {

/// The API keys bound to a project, in their order.
pub open spec fn keys_of(keys: Seq<ApiKeyView>, project: Seq<char>) -> Seq<ApiKeyView>
    decreases keys.len(),
{
    if keys.len() == 0 {
        keys
    } else if keys.last().project == project {
        keys_of(keys.drop_last(), project).push(keys.last())
    } else {
        keys_of(keys.drop_last(), project)
    }
}

impl StateView {
    /// The tree with an API key appended.
    pub open spec fn add_api_key(self, key: ApiKeyView) -> StateView {
        StateView { api_keys: self.api_keys.push(key), ..self }
    }

    /// The tree without the first API key that has this token.
    pub open spec fn remove_api_key(self, key: Seq<char>) -> StateView {
        StateView { api_keys: self.api_keys.remove(position(self.api_keys, key)), ..self }
    }
}

/// A failed write of a new API key is undone exactly: dropping the last
/// key restores the tree.
pub proof fn law_issue_api_key_undone(s: StateView, key: ApiKeyView)
    ensures
        undone(s.add_api_key(key), UndoView::DropLastApiKey) == s,
{
    assert(s.api_keys.push(key).drop_last() =~= s.api_keys);
}

/// A failed write of a revoked API key is undone exactly: the key returns
/// to its place.
pub proof fn law_revoke_api_key_undone(s: StateView, key: Seq<char>)
    requires
        has_key(s.api_keys, key),
    ensures
        undone(
            s.remove_api_key(key),
            UndoView::RestoreApiKey {
                position: position(s.api_keys, key),
                key: lookup(s.api_keys, key),
            },
        ) == s,
{
    lemma_position(s.api_keys, key);
    let at = position(s.api_keys, key);
    assert(s.api_keys.remove(at).insert(at, s.api_keys[at]) =~= s.api_keys);
}

/// `uuid::Uuid::new_v4`, written out by `Uuid`'s `Display`: a random
/// version 4 identifier in the hyphenated form, which has 36 characters.
/// Nothing is claimed of which identifier comes back. The call ends the
/// program where the system gives no random bytes.
#[verifier::external_body]
fn fresh_token() -> (r: String)
    ensures
        r@.len() == 36,
{
    uuid::Uuid::new_v4().to_string()
}

/// Binds a given token to a project as a new API key.
///
/// Fails with `ProjectNotFound`, and changes nothing, where the project is
/// missing.
pub fn issue_api_key(storage: &mut Storage, project: &str, token: String) -> (r: Result<
    ApiKey,
    ConfigError,
>)
    ensures
        r is Ok <==> old(storage)@.has_project(project@),
        r matches Ok(k) ==> {
            &&& k@ == (ApiKeyView { key: token@, project: project@ })
            &&& final(storage)@ == old(storage)@.add_api_key(k@)
            &&& final(storage).rolled_back() == old(storage)@
        },
        r matches Err(e) ==> {
            &&& e@ == ErrorView::ProjectNotFound(project@)
            &&& *final(storage) == *old(storage)
        },
        old(storage)@.wf() ==> final(storage)@.wf(),
{
    if find_project(&storage.state().projects, project).is_none() {
        return Err(ConfigError::ProjectNotFound(project.to_owned()));
    }
    let api_key = ApiKey { key: token, project: project.to_owned() };
    let copy = api_key.clone();
    let state = storage.state_mut();
    push_lifted(&mut state.api_keys, copy);
    storage.record(Undo::DropLastApiKey);
    proof {
        law_issue_api_key_undone(old(storage)@, api_key@);
        if old(storage)@.wf() {
            assert forall|i: int| 0 <= i < storage@.api_keys.len() implies storage@.has_project(
                (#[trigger] storage@.api_keys[i]).project,
            ) by {
                if i < old(storage)@.api_keys.len() {
                    assert(old(storage)@.has_project(old(storage)@.api_keys[i].project));
                }
            }
        }
    }
    Ok(api_key)
}

/// Generates a fresh API key, a random identifier of 36 characters, and
/// binds it to a project.
///
/// Fails with `ProjectNotFound`, and changes nothing, where the project is
/// missing.
pub fn generate_api_key(storage: &mut Storage, project: &str) -> (r: Result<ApiKey, ConfigError>)
    ensures
        r is Ok <==> old(storage)@.has_project(project@),
        r matches Ok(k) ==> {
            &&& k@.project == project@
            &&& k@.key.len() == 36
            &&& final(storage)@ == old(storage)@.add_api_key(k@)
            &&& final(storage).rolled_back() == old(storage)@
        },
        r matches Err(e) ==> {
            &&& e@ == ErrorView::ProjectNotFound(project@)
            &&& *final(storage) == *old(storage)
        },
        old(storage)@.wf() ==> final(storage)@.wf(),
{
    if find_project(&storage.state().projects, project).is_none() {
        return Err(ConfigError::ProjectNotFound(project.to_owned()));
    }
    let token = fresh_token();
    issue_api_key(storage, project, token)
}

/// Revokes the API key with this token.
///
/// Fails with `ApiKeyNotFound`, and changes nothing, where no key has the
/// token.
pub fn revoke_api_key(storage: &mut Storage, key: &str) -> (r: Result<(), ConfigError>)
    ensures
        r is Ok <==> has_key(old(storage)@.api_keys, key@),
        r is Ok ==> {
            &&& final(storage)@ == old(storage)@.remove_api_key(key@)
            &&& final(storage).rolled_back() == old(storage)@
        },
        r matches Err(e) ==> {
            &&& e@ == ErrorView::ApiKeyNotFound(key@)
            &&& *final(storage) == *old(storage)
        },
        old(storage)@.wf() ==> final(storage)@.wf(),
{
    let at = match find_api_key(&storage.state().api_keys, key) {
        Some(i) => i,
        None => {
            return Err(ConfigError::ApiKeyNotFound(key.to_owned()));
        },
    };
    let state = storage.state_mut();
    let removed = remove_lifted(&mut state.api_keys, at);
    proof {
        let keys = old(storage)@.api_keys;
        law_revoke_api_key_undone(old(storage)@, key@);
        if old(storage)@.wf() {
            assert forall|i: int| 0 <= i < state@.api_keys.len() implies state@.has_project(
                (#[trigger] state@.api_keys[i]).project,
            ) by {
                let i0 = if i < at { i } else { i + 1 };
                assert(old(storage)@.has_project(keys[i0].project));
            }
        }
    }
    storage.record(Undo::RestoreApiKey { position: at, key: removed });
    Ok(())
}

/// The API keys bound to a project, in their order.
///
/// Fails with `ProjectNotFound` where the project is missing.
pub fn list_api_keys<'a>(storage: &'a Storage, project: &str) -> (r: Result<
    Vec<&'a ApiKey>,
    ConfigError,
>)
    ensures
        r is Ok <==> storage@.has_project(project@),
        r matches Ok(keys) ==> {
            &&& keys@.len() == keys_of(storage@.api_keys, project@).len()
            &&& forall|i: int|
                0 <= i < keys@.len() ==> (#[trigger] keys@[i])@ == keys_of(
                    storage@.api_keys,
                    project@,
                )[i]
        },
        r matches Err(e) ==> e@ == ErrorView::ProjectNotFound(project@),
{
    if find_project(&storage.state().projects, project).is_none() {
        return Err(ConfigError::ProjectNotFound(project.to_owned()));
    }
    let needle = project.to_owned();
    let keys = &storage.state().api_keys;
    let ghost all = lift(keys@);
    let mut out: Vec<&ApiKey> = Vec::new();
    let mut i: usize = 0;
    assert(all.take(0) =~= Seq::empty());
    while i < keys.len()
        invariant
            i <= keys.len(),
            needle@ == project@,
            all == lift(keys@),
            out@.len() == keys_of(all.take(i as int), project@).len(),
            forall|j: int|
                0 <= j < out@.len() ==> (#[trigger] out@[j])@ == keys_of(
                    all.take(i as int),
                    project@,
                )[j],
        decreases keys.len() - i,
    {
        proof {
            assert(all.take(i as int + 1).drop_last() =~= all.take(i as int));
            assert(all.take(i as int + 1).last() == keys@[i as int]@);
        }
        if keys[i].project == needle {
            out.push(&keys[i]);
        }
        i += 1;
    }
    assert(all.take(keys.len() as int) =~= all);
    Ok(out)
}

/// The API key with this token.
///
/// Fails with `Unauthorized` where no key has the token; the error does not
/// tell which keys exist.
pub fn validate_api_key<'a>(storage: &'a Storage, key: &str) -> (r: Result<&'a ApiKey, ConfigError>)
    ensures
        r is Ok <==> has_key(storage@.api_keys, key@),
        r matches Ok(k) ==> k@ == lookup(storage@.api_keys, key@) && k@.key == key@,
        r matches Err(e) ==> e@ == ErrorView::Unauthorized("invalid api key"@),
{
    match find_api_key(&storage.state().api_keys, key) {
        Some(i) => Ok(&storage.state().api_keys[i]),
        None => Err(ConfigError::Unauthorized("invalid api key".to_owned())),
    }
}

} // verus!
