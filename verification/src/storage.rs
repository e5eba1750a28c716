//! The snapshot store: the configuration tree in memory, with a journal
//! that can take the last change back when writing it out has failed.
use crate::codec::{decode_state, encode_state, Encoded};
use crate::error::ConfigError;
use crate::json::{json_parse, json_pretty, parsed_json, pretty_text};
use crate::models::{ConfigState, StateView};
use crate::undo::{apply_undo, undone, Undo, UndoView};
use crate::value::{ConfigValue, JsonView};
use vstd::prelude::*;
use vstd::string::StrSliceExecFns;

verus! {

/// The configuration tree in memory, together with what takes its last
/// change back.
///
/// Every mutation of the engine changes the tree and records its undo. The
/// caller then writes the snapshot out; if that fails, [`Storage::rollback`]
/// restores the tree as it was before the mutation.
#[derive(Debug)]
pub struct Storage {
    state: ConfigState,
    journal: Option<Undo>,
}

/// The tree that a snapshot document holds: `None` where the document is
/// not a map at its root, and the empty tree where its fields do not have
/// the shape of a tree.
pub open spec fn tree_in(document: JsonView) -> Option<StateView> {
    match document {
        JsonView::Object(_) => Some(
            match StateView::decode(document) {
                Some(s) => s,
                None => StateView::empty(),
            },
        ),
        _ => None,
    }
}

/// What loading a snapshot gives: the empty tree for no content or empty
/// content; else the tree in the document that the content holds; `None`
/// where the content is no document, or no map at its root.
pub open spec fn loaded(content: Option<Seq<char>>) -> Option<StateView> {
    match content {
        None => Some(StateView::empty()),
        Some(text) => if text.len() == 0 {
            Some(StateView::empty())
        } else {
            match parsed_json(text) {
                Some(document) => tree_in(document),
                None => None,
            }
        },
    }
}

/// The tree that takes the place of the present one on import: the tree
/// that the document holds, field for field.
pub open spec fn imported(text: Seq<char>) -> Option<StateView> {
    match parsed_json(text) {
        Some(document) => StateView::decode(document),
        None => None,
    }
}

/// Export, import and export again gives the first export, wherever the
/// JSON reader gives back the document that the JSON writer wrote: the
/// import holds the exported tree, and so the second export is the first.
pub proof fn law_export_import_export(s: StateView, text: Seq<char>)
    requires
        pretty_text(s.encode()) == Some(text),
        parsed_json(text) == Some(s.encode()),
    ensures
        imported(text) == Some(s),
        pretty_text(imported(text)->0.encode()) == Some(text),
{
    s.lemma_round_trip();
}

impl View for Storage {
    type V = StateView;

    open spec fn view(&self) -> StateView {
        self.inner()@
    }
}

impl Storage {
    /// The tree that the store holds.
    pub closed spec fn inner(&self) -> ConfigState {
        self.state
    }

    /// What takes the last change back, if it can still be taken back.
    pub closed spec fn pending(&self) -> Option<UndoView> {
        match self.journal {
            Some(u) => Some(u@),
            None => None,
        }
    }

    /// The tree as it is once the last change has been taken back.
    pub open spec fn rolled_back(&self) -> StateView {
        match self.pending() {
            Some(u) => undone(self@, u),
            None => self@,
        }
    }

    /// A store with an empty tree.
    pub fn new() -> (r: Storage)
        ensures
            r@ == StateView::empty(),
            r@.wf(),
            r.pending() is None,
    {
        Storage { state: ConfigState::empty(), journal: None }
    }

    /// A store that holds the given tree.
    pub fn from_state(state: ConfigState) -> (r: Storage)
        ensures
            r.inner() == state,
            r.pending() is None,
    {
        Storage { state, journal: None }
    }

    /// A store for the tree in a parsed snapshot document. A document whose
    /// fields do not have the shape of a tree counts as absent: the store
    /// is empty. A document that is no map at its root is refused with
    /// `SerializationError`.
    pub fn from_document(document: &ConfigValue) -> (r: Result<Storage, ConfigError>)
        ensures
            r is Ok <==> tree_in(document@) is Some,
            r matches Ok(s) ==> Some(s@) == tree_in(document@) && s.pending() is None,
            r matches Err(e) ==> e@ is SerializationError,
    {
        match document {
            ConfigValue::Object(_) => match decode_state(document) {
                Some(state) => Ok(Storage { state: state, journal: None }),
                None => Ok(Storage::new()),
            },
            _ => Err(ConfigError::SerializationError("snapshot root is not a map".to_owned())),
        }
    }

    /// Loads a snapshot from the content of its file: `None` where there is
    /// no file. No content and empty content give an empty store. Content
    /// that is not a JSON document with a map at its root is refused with
    /// `SerializationError`; a document whose fields do not have the shape
    /// of a tree gives an empty store.
    pub fn load(content: Option<&str>) -> (r: Result<Storage, ConfigError>)
        ensures
            r is Ok <==> loaded(crate::models::str_of(content)) is Some,
            r matches Ok(s) ==> Some(s@) == loaded(crate::models::str_of(content))
                && s.pending() is None,
            r matches Err(e) ==> e@ is SerializationError,
    {
        match content {
            None => Ok(Storage::new()),
            Some(text) => {
                if text.unicode_len() == 0 {
                    return Ok(Storage::new());
                }
                match json_parse(text) {
                    Ok(document) => Storage::from_document(&document),
                    Err(reason) => Err(ConfigError::SerializationError(reason)),
                }
            },
        }
    }

    /// The snapshot document of the tree, as indented JSON text, for the
    /// caller to write out. Fails with `StorageError` where the text cannot
    /// be produced.
    pub fn save(&self) -> (r: Result<String, ConfigError>)
        ensures
            r is Ok <==> pretty_text(self@.encode()) is Some,
            r matches Ok(text) ==> Some(text@) == pretty_text(self@.encode()),
            r matches Err(e) ==> e@ is StorageError,
    {
        match json_pretty(&encode_state(&self.state)) {
            Ok(text) => Ok(text),
            Err(reason) => Err(ConfigError::StorageError(reason)),
        }
    }

    /// Replaces the whole tree; the journal keeps the tree that was there.
    pub fn replace(&mut self, state: ConfigState)
        ensures
            final(self).inner() == state,
            final(self).rolled_back() == old(self)@,
    {
        let mut previous = state;
        core::mem::swap(&mut self.state, &mut previous);
        self.journal = Some(Undo::RestoreState(previous));
    }

    /// Replaces the whole tree by the tree that a snapshot document holds.
    /// Fails with `SerializationError`, and changes nothing, where the text
    /// is no JSON document or the document has not the shape of a tree.
    pub fn import(&mut self, text: &str) -> (r: Result<(), ConfigError>)
        ensures
            r is Ok <==> imported(text@) is Some,
            r is Ok ==> Some(final(self)@) == imported(text@) && final(self).rolled_back() == old(
                self,
            )@,
            r matches Err(e) ==> e@ is SerializationError && *final(self) == *old(self),
    {
        let document = match json_parse(text) {
            Ok(d) => d,
            Err(reason) => {
                return Err(ConfigError::SerializationError(reason));
            },
        };
        match decode_state(&document) {
            Some(state) => {
                self.replace(state);
                Ok(())
            },
            None => Err(
                ConfigError::SerializationError("document has not the shape of a tree".to_owned()),
            ),
        }
    }

    /// The tree, to be read.
    pub fn state(&self) -> (r: &ConfigState)
        ensures
            *r == self.inner(),
    {
        &self.state
    }

    /// The tree, to be changed in place. What is changed this way cannot be
    /// taken back: the journal is cleared.
    pub fn state_mut(&mut self) -> (r: &mut ConfigState)
        ensures
            *r == old(self).inner(),
            final(self).inner() == *final(r),
            final(self).pending() is None,
    {
        self.journal = None;
        &mut self.state
    }

    /// Gives the tree up.
    pub fn into_state(self) -> (r: ConfigState)
        ensures
            r == self.inner(),
    {
        self.state
    }

    /// Records what takes the change just made back.
    pub fn record(&mut self, undo: Undo)
        ensures
            final(self).inner() == old(self).inner(),
            final(self).pending() == Some(undo@),
    {
        self.journal = Some(undo);
    }

    /// Whether the last change can still be taken back.
    pub fn has_pending(&self) -> (r: bool)
        ensures
            r == self.pending() is Some,
    {
        self.journal.is_some()
    }

    /// Settles the last change: it can no longer be taken back.
    pub fn commit(&mut self)
        ensures
            final(self).inner() == old(self).inner(),
            final(self).pending() is None,
    {
        self.journal = None;
    }

    /// Settles a mutation with the outcome of writing the snapshot out: the
    /// last step of every mutation.
    ///
    /// A mutation that failed validation changed nothing, and its error is
    /// returned. Where the mutation succeeded and the snapshot was written,
    /// the change is settled and the mutation's result is returned. Where
    /// the mutation succeeded and writing failed, the change is taken back
    /// exactly, and the error of the write is returned.
    pub fn settle<T>(
        &mut self,
        outcome: Result<T, ConfigError>,
        written: Result<(), ConfigError>,
    ) -> (r: Result<T, ConfigError>)
        ensures
            match (outcome, written) {
                (Err(_), _) => r == outcome && *final(self) == *old(self),
                (Ok(_), Ok(_)) => {
                    &&& r == outcome
                    &&& final(self).inner() == old(self).inner()
                    &&& final(self).pending() is None
                },
                (Ok(_), Err(e)) => {
                    &&& r == Err::<T, ConfigError>(e)
                    &&& final(self)@ == old(self).rolled_back()
                    &&& final(self).pending() is None
                },
            },
    {
        match outcome {
            Err(e) => Err(e),
            Ok(result) => match written {
                Ok(_) => {
                    self.commit();
                    Ok(result)
                },
                Err(e) => {
                    let _ = self.rollback();
                    Err(e)
                },
            },
        }
    }

    /// Takes the last change back, after writing it out has failed. Returns
    /// whether there was a change to take back.
    pub fn rollback(&mut self) -> (r: bool)
        ensures
            r == old(self).pending() is Some,
            final(self)@ == old(self).rolled_back(),
            final(self).pending() is None,
    {
        match self.journal.take() {
            Some(undo) => {
                apply_undo(&mut self.state, undo);
                true
            },
            None => false,
        }
    }
}

} // verus!
