//! The session lifecycle state machine.
//!
//! The transport decodes each incoming message and calls one handler with
//! plain values; the handler validates the event against the current
//! lifecycle state, updates the document store, and hands back what must
//! go out: the declared capabilities, a log line, or a diagnostic
//! publication.  Events that are invalid in the current state are
//! rejected with a protocol error and leave the session untouched; no
//! handler ever panics.

use vstd::prelude::*;

use crate::publisher::Publication;
use crate::publisher::on_change;
use crate::publisher::publication_matches;
use crate::store::DocumentStore;
use crate::store::store_upserted;

verus! {

/// Where the session stands in its lifecycle.  The editor must first
/// request the capabilities, then acknowledge them; only then are
/// document-synchronization events meaningful, until the session is shut
/// down for good.
#[derive(Clone, Copy, Debug, PartialEq, Eq, Structural)]
pub enum SessionState {
    Uninitialized,
    CapabilitiesDeclared,
    Initialized,
    Shutdown,
}

/// How the editor must synchronize document content with the session.
#[derive(Clone, Copy, Debug, PartialEq, Eq, Structural)]
pub enum TextDocumentSyncKind {
    Full,
    Incremental,
}

/// What the session declares it can do: it asks for full-document
/// replacement on every change, never for incremental patches.
#[derive(Clone, Copy, Debug, PartialEq, Eq, Structural)]
pub struct ServerCapabilities {
    pub text_document_sync: TextDocumentSyncKind,
}

/// Why the session rejected an event.  A rejected event has no effect.
#[derive(Clone, Copy, Debug, PartialEq, Eq, Structural)]
pub enum ProtocolError {
    /// The event is not valid in the current lifecycle state.
    InvalidState,
    /// A change event arrived with an empty content-change list.
    EmptyContentChanges,
    /// A change event carried a version not above the stored one.
    StaleVersion,
}

/// The log line emitted once when the session becomes initialized.
pub open spec fn init_log_message() -> Seq<char> {
    "server initialized!"@
}

/// The session: the lifecycle state and the document store it owns.
pub struct Session {
    state: SessionState,
    store: DocumentStore,
}

impl Session {
    /// The current lifecycle state.
    pub closed spec fn state(self) -> SessionState {
        self.state
    }

    /// The document store as the session currently holds it.
    pub closed spec fn store(self) -> DocumentStore {
        self.store
    }

    /// Whether the session tracks a document under `uri`.
    pub open spec fn tracks(self, uri: Seq<char>) -> bool {
        self.store().tracks(uri)
    }

    /// The stored text of the document `uri`.
    pub open spec fn text_of(self, uri: Seq<char>) -> Seq<char> {
        self.store().text_of(uri)
    }

    /// The stored version of the document `uri`.
    pub open spec fn version_of(self, uri: Seq<char>) -> int {
        self.store().version_of(uri)
    }

    /// Creates a fresh session: uninitialized, tracking nothing.
    pub fn new() -> (s: Session)
        ensures
            s.state() is Uninitialized,
            forall|u: Seq<char>| !s.tracks(u),
    {
        Session { state: SessionState::Uninitialized, store: DocumentStore::new() }
    }

    /// The current lifecycle state, for the transport to inspect.
    pub fn current_state(&self) -> (s: SessionState)
        ensures
            s == self.state(),
    {
        self.state
    }

    /// The stored document under `uri`, if the session tracks one.
    pub fn document(&self, uri: &String) -> (r: Option<&crate::store::Document>)
        ensures
            match r {
                Option::Some(d) => self.tracks(uri@) && d.uri@ == uri@ && d.text@ == self.text_of(
                    uri@,
                ) && d.version as int == self.version_of(uri@),
                Option::None => !self.tracks(uri@),
            },
    {
        self.store.get(uri)
    }

    /// Handles the initialize request.  Valid only before anything else
    /// happened; declares full-document synchronization and moves on to
    /// await the editor's acknowledgement.
    pub fn initialize(&mut self) -> (r: Result<ServerCapabilities, ProtocolError>)
        ensures
            old(self).state() is Uninitialized ==> r is Ok && (r->Ok_0).text_document_sync
                is Full && final(self).state() is CapabilitiesDeclared && final(self).store() == old(
                self).store(),
            !(old(self).state() is Uninitialized) ==> r is Err && r->Err_0 is InvalidState && *final(
                self) == *old(self),
    {
        match self.state {
            SessionState::Uninitialized => {
                self.state = SessionState::CapabilitiesDeclared;
                Result::Ok(ServerCapabilities { text_document_sync: TextDocumentSyncKind::Full })
            },
            _ => Result::Err(ProtocolError::InvalidState),
        }
    }

    /// Handles the initialized notification: the editor has acknowledged
    /// the capabilities.  Hands back the one-time informational log line;
    /// the notice has no effect on any later analysis.
    pub fn initialized(&mut self) -> (r: Result<String, ProtocolError>)
        ensures
            old(self).state() is CapabilitiesDeclared ==> r is Ok && (r->Ok_0)@
                == init_log_message() && final(self).state() is Initialized && final(self).store()
                == old(self).store(),
            !(old(self).state() is CapabilitiesDeclared) ==> r is Err && r->Err_0 is InvalidState
                && *final(self) == *old(self),
    {
        match self.state {
            SessionState::CapabilitiesDeclared => {
                self.state = SessionState::Initialized;
                Result::Ok("server initialized!".to_owned())
            },
            _ => Result::Err(ProtocolError::InvalidState),
        }
    }

    /// Handles a document-open event: stores the document and returns the
    /// publication for its analyzed text, tagged with the event's
    /// version.  Valid only while initialized.
    pub fn did_open(&mut self, uri: String, text: String, version: i32) -> (r: Result<
        Publication,
        ProtocolError,
    >)
        requires
            text@.len() < u32::MAX,
        ensures
            old(self).state() is Initialized ==> {
                &&& r is Ok
                &&& publication_matches(r->Ok_0, uri@, version as int, text@)
                &&& store_upserted(old(self).store(), final(self).store(), uri@, text@,
                    version as int)
                &&& final(self).state() is Initialized
            },
            !(old(self).state() is Initialized) ==> r is Err && r->Err_0 is InvalidState && *final(
                self) == *old(self),
    {
        match self.state {
            SessionState::Initialized => {
                let p = on_change(uri.clone(), version, text.as_str());
                self.store.open(uri, text, version);
                Result::Ok(p)
            },
            _ => Result::Err(ProtocolError::InvalidState),
        }
    }

    /// Handles a document-change event.  Synchronization is full-document,
    /// so there is exactly one meaningful content change: only the first
    /// entry is used and any further entries are ignored, a documented
    /// limitation of this protocol surface.  An event with no entry at
    /// all violates the contract and is rejected rather than indexed
    /// into; an event whose version is not above the stored one is
    /// rejected as stale rather than allowed to corrupt the store.
    pub fn did_change(&mut self, uri: String, version: i32, content_changes: Vec<String>) -> (r:
        Result<Publication, ProtocolError>)
        requires
            content_changes@.len() > 0 ==> content_changes@[0]@.len() < u32::MAX,
        ensures
            !(old(self).state() is Initialized) ==> r is Err && r->Err_0 is InvalidState && *final(
                self) == *old(self),
            old(self).state() is Initialized && content_changes@.len() == 0 ==> r is Err
                && r->Err_0 is EmptyContentChanges && *final(self) == *old(self),
            old(self).state() is Initialized && content_changes@.len() > 0 && old(self).tracks(uri@)
                && old(self).version_of(uri@) >= version as int ==> r is Err && r->Err_0
                is StaleVersion && *final(self) == *old(self),
            old(self).state() is Initialized && content_changes@.len() > 0 && (!old(self).tracks(
                uri@,
            ) || old(self).version_of(uri@) < version as int) ==> {
                &&& r is Ok
                &&& publication_matches(r->Ok_0, uri@, version as int, content_changes@[0]@)
                &&& store_upserted(old(self).store(), final(self).store(), uri@,
                    content_changes@[0]@, version as int)
                &&& final(self).state() is Initialized
            },
    {
        match self.state {
            SessionState::Initialized => {
                let mut changes = content_changes;
                if changes.len() == 0 {
                    return Result::Err(ProtocolError::EmptyContentChanges);
                }
                let text = changes.remove(0);
                let accepted = self.store.replace(&uri, text.clone(), version);
                if !accepted {
                    return Result::Err(ProtocolError::StaleVersion);
                }
                let p = on_change(uri, version, text.as_str());
                Result::Ok(p)
            },
            _ => Result::Err(ProtocolError::InvalidState),
        }
    }

    /// Handles the shutdown request: stops accepting further events and
    /// releases the in-memory document store, the only resource the
    /// session holds.  Valid only while initialized; terminal.
    pub fn shutdown(&mut self) -> (r: Result<(), ProtocolError>)
        ensures
            old(self).state() is Initialized ==> r is Ok && final(self).state() is Shutdown
                && forall|u: Seq<char>| !final(self).tracks(u),
            !(old(self).state() is Initialized) ==> r is Err && r->Err_0 is InvalidState && *final(
                self) == *old(self),
    {
        match self.state {
            SessionState::Initialized => {
                self.state = SessionState::Shutdown;
                self.store.clear();
                Result::Ok(())
            },
            _ => Result::Err(ProtocolError::InvalidState),
        }
    }
}

} // verus!
