//! The shared tier: items of the shared group's environments, which lie
//! beneath the items of every project's environment of the same name.
use crate::error::{ConfigError, ErrorView};
use crate::items::{create_item_in, delete_item_in, list_items_in, update_item_in};
use crate::models::{ConfigItem, ItemView};
use crate::storage::Storage;
use crate::tree::Scope;
use crate::value::ConfigValue;
use vstd::prelude::*;

verus! {

/// Creates an item in an environment of the shared group.
///
/// Fails, and changes nothing, with `EnvironmentNotFound` where the shared
/// group has no environment of that name, else with
/// `ConfigItemAlreadyExists` where the key is taken.
pub fn create_shared_item(storage: &mut Storage, env: &str, key: &str, value: ConfigValue) -> (r:
    Result<ConfigItem, ConfigError>)
    ensures
        r is Ok <==> old(storage)@.create_item_error(Scope::Shared, env@, key@) is None,
        r matches Ok(item) ==> {
            &&& item@ == (ItemView { key: key@, value: value@ })
            &&& final(storage)@ == old(storage)@.add_item(Scope::Shared, env@, item@)
            &&& final(storage).rolled_back() == old(storage)@
        },
        r matches Err(e) ==> {
            &&& Some(e@) == old(storage)@.create_item_error(Scope::Shared, env@, key@)
            &&& *final(storage) == *old(storage)
        },
        old(storage)@.wf() ==> final(storage)@.wf(),
{
    create_item_in(storage, Scope::Shared, env, key, value)
}

/// Replaces the value of an item in an environment of the shared group; the
/// item keeps its place.
///
/// Fails, and changes nothing, with `EnvironmentNotFound` where the shared
/// group has no environment of that name, else with `ConfigItemNotFound`
/// where no item has the key.
pub fn update_shared_item(storage: &mut Storage, env: &str, key: &str, value: ConfigValue) -> (r:
    Result<ConfigItem, ConfigError>)
    ensures
        r is Ok <==> old(storage)@.item_error(Scope::Shared, env@, key@) is None,
        r matches Ok(item) ==> {
            &&& item@ == (ItemView { key: key@, value: value@ })
            &&& final(storage)@ == old(storage)@.set_value(Scope::Shared, env@, key@, value@)
            &&& final(storage).rolled_back() == old(storage)@
        },
        r matches Err(e) ==> {
            &&& Some(e@) == old(storage)@.item_error(Scope::Shared, env@, key@)
            &&& *final(storage) == *old(storage)
        },
        old(storage)@.wf() ==> final(storage)@.wf(),
{
    update_item_in(storage, Scope::Shared, env, key, value)
}

/// Deletes an item from an environment of the shared group.
///
/// Fails, and changes nothing, with `EnvironmentNotFound` where the shared
/// group has no environment of that name, else with `ConfigItemNotFound`
/// where no item has the key.
pub fn delete_shared_item(storage: &mut Storage, env: &str, key: &str) -> (r: Result<
    (),
    ConfigError,
>)
    ensures
        r is Ok <==> old(storage)@.item_error(Scope::Shared, env@, key@) is None,
        r is Ok ==> {
            &&& final(storage)@ == old(storage)@.remove_item(Scope::Shared, env@, key@)
            &&& final(storage).rolled_back() == old(storage)@
        },
        r matches Err(e) ==> {
            &&& Some(e@) == old(storage)@.item_error(Scope::Shared, env@, key@)
            &&& *final(storage) == *old(storage)
        },
        old(storage)@.wf() ==> final(storage)@.wf(),
{
    delete_item_in(storage, Scope::Shared, env, key)
}

/// The items of an environment of the shared group, in their order.
///
/// Fails with `EnvironmentNotFound` where the shared group has no
/// environment of that name.
pub fn list_shared_items<'a>(storage: &'a Storage, env: &str) -> (r: Result<
    Vec<&'a ConfigItem>,
    ConfigError,
>)
    ensures
        r is Ok <==> storage@.has_shared(env@),
        r matches Ok(items) ==> {
            &&& items@.len() == storage@.shared_env(env@).items.len()
            &&& forall|i: int|
                0 <= i < items@.len() ==> (#[trigger] items@[i])@ == storage@.shared_env(
                    env@,
                ).items[i]
        },
        r matches Err(e) ==> e@ == ErrorView::EnvironmentNotFound(env@),
{
    list_items_in(storage, Scope::Shared, env)
}

} // verus!
