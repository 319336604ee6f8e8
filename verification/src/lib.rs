//! A client-side feature-flag library: a versioned configuration store fed
//! by a push stream of updates, and a deterministic per-user flag evaluator.
//!
//! The client composes the pieces: it owns one store, evaluates flags
//! against it, and consumes decoded stream events under the retry rules.

pub mod bucket;
pub mod consumer;
pub mod evaluator;
pub mod message;
pub mod models;
pub mod store;
pub mod text;

use vstd::prelude::*;
use vstd::hash_map::StringHashMap;
use vstd::utf8::encode_utf8;

use crate::consumer::{read_result, run_spec, ReadError, RunState, SourceEvent};
use crate::evaluator::{bool_variation_spec, evaluate_spec, Error, Evaluation, User};
use crate::models::{FeatureFlagState, Variation};
use crate::store::MemoryStore;

verus! {

/// Why starting the client failed.
#[derive(Clone, Copy, Debug, PartialEq, Eq)]
pub enum StartError {
    /// The client was already started; it can be started only once.
    AlreadyStarted,
    /// Reading from the source ended without readiness.
    Start(ReadError),
}

#[verifier::external_type_specification]
#[verifier::external_body]
pub struct ExInvalidHeaderValue(http::header::InvalidHeaderValue);

/// Why a client could not be created.
#[derive(Debug)]
pub enum CreateError {
    /// The SDK token cannot stand in an HTTP header value.
    InvalidToken(http::header::InvalidHeaderValue),
}

/// Whether every byte may stand in an HTTP header value: 32 to 255 except
/// 127, or 9 (tab).
pub open spec fn header_value_ok(bytes: Seq<u8>) -> bool {
    forall|i: int|
        0 <= i < bytes.len() ==> ((bytes[i] >= 32 && bytes[i] != 127) || bytes[i] == 9)
}

/// Whether a token may be sent as an authorization header: every byte of
/// its UTF-8 encoding may stand in a header value.
pub open spec fn token_ok(token: Seq<char>) -> bool {
    header_value_ok(encode_utf8(token))
}

/// Relies on http's `HeaderValue::from_str`: it accepts exactly the strings
/// each of whose bytes is 32 to 255 but not 127, or 9 (tab).
#[verifier::external_body]
fn check_header_value(s: &str) -> (r: Result<(), http::header::InvalidHeaderValue>)
    ensures
        r is Ok <==> token_ok(s@),
{
    http::header::HeaderValue::from_str(s).map(|_| ())
}

/// A feature-flag client: one store, one evaluation path bound to it, and
/// the startup state of its stream consumption.
pub struct DefaultClient {
    store: MemoryStore,
    token: Option<String>,
    started: bool,
}

impl DefaultClient {
    /// The client's store.
    pub closed spec fn store_state(&self) -> MemoryStore {
        self.store
    }

    /// The SDK token the client was created with, if any.
    pub closed spec fn token_state(&self) -> Option<String> {
        self.token
    }

    /// Whether `start` has been called.
    pub closed spec fn started_state(&self) -> bool {
        self.started
    }

    /// The client's store is well formed.
    pub open spec fn wf(&self) -> bool {
        self.store_state().wf()
    }

    /// Creates a client from an SDK token, which must be sendable as an
    /// authorization header.
    pub fn with_token(token: String) -> (r: Result<DefaultClient, CreateError>)
        ensures
            match r {
                Ok(c) => token_ok(token@) && c.wf() && !c.store_state().initialized()
                    && !c.started_state() && c.token_state() == Some(token),
                Err(_) => !token_ok(token@),
            },
    {
        match check_header_value(token.as_str()) {
            Err(e) => Err(CreateError::InvalidToken(e)),
            Ok(_) => Ok(
                DefaultClient { store: MemoryStore::new(), token: Some(token), started: false },
            ),
        }
    }

    /// Makes a client around an existing store.
    pub fn new(store: MemoryStore) -> (r: DefaultClient)
        ensures
            r.store_state() == store,
            r.token_state() is None,
            !r.started_state(),
    {
        DefaultClient { store, token: None, started: false }
    }

    /// The SDK token, for whoever opens the connection.
    pub fn token(&self) -> (r: &Option<String>)
        ensures
            *r == self.token_state(),
    {
        &self.token
    }

    /// Starts the client once over a sequence of stream events: applies
    /// them to the store under the retry rules and reports what a waiter on
    /// readiness observes. A second call fails and changes nothing.
    pub fn start(&mut self, events: Vec<SourceEvent>) -> (r: Result<(), StartError>)
        requires
            old(self).wf(),
        ensures
            final(self).wf(),
            final(self).token_state() == old(self).token_state(),
            old(self).started_state() ==> r == Err::<(), StartError>(StartError::AlreadyStarted)
                && *final(self) == *old(self),
            !old(self).started_state() ==> final(self).started_state() && ({
                let end = run_spec(
                    RunState {
                        flags: old(self).store_state().flags(),
                        init: old(self).store_state().initialized(),
                        failures: 0,
                        ready: None,
                    },
                    events@,
                );
                &&& final(self).store_state().flags() == end.flags
                &&& final(self).store_state().initialized() == end.init
                &&& r == match read_result(end) {
                    Ok(_) => Ok::<(), StartError>(()),
                    Err(e) => Err::<(), StartError>(StartError::Start(e)),
                }
            }),
    {
        if self.started {
            return Err(StartError::AlreadyStarted);
        }
        self.started = true;
        match self.store.read_from(events) {
            Ok(_) => Ok(()),
            Err(e) => Err(StartError::Start(e)),
        }
    }

    /// Applies one decoded message to the client's store.
    pub fn apply(&mut self, msg: crate::message::Message) -> (r: crate::consumer::InitState)
        requires
            old(self).wf(),
        ensures
            final(self).wf(),
            final(self).token_state() == old(self).token_state(),
            final(self).started_state() == old(self).started_state(),
            final(self).store_state().flags() == crate::store::apply_flags(
                old(self).store_state().flags(),
                old(self).store_state().initialized(),
                msg,
            ),
            final(self).store_state().initialized() == crate::store::apply_init(
                old(self).store_state().initialized(),
                msg,
            ),
            r == crate::store::apply_status(old(self).store_state().initialized(), msg),
    {
        self.store.apply(msg)
    }

    /// Exports the flag data from the underlying store.
    pub fn export(&self) -> (r: &StringHashMap<FeatureFlagState>)
        ensures
            r@ == self.store_state().flags(),
    {
        self.store.export_all()
    }

    /// Determines the variation value for a flag.
    pub fn evaluate(&self, flag: &str, user: &User) -> (r: Result<Variation, Error>)
        ensures
            r == evaluate_spec(self.store_state(), flag@, user.key@),
    {
        let f = match self.store.flag(flag) {
            None => {
                return Err(Error::FlagNotFound);
            },
            Some(f) => f,
        };
        Evaluation::new(&self.store, f, user).run()
    }

    /// Determines a boolean flag variation value.
    pub fn bool_variation(&self, flag: &str, user: &User) -> (r: Result<bool, Error>)
        ensures
            r == bool_variation_spec(self.store_state(), flag@, user.key@),
    {
        match self.evaluate(flag, user) {
            Err(e) => Err(e),
            Ok(Variation::Bool(b)) => Ok(b),
            Ok(_) => Err(Error::InvalidVariationType),
        }
    }
}

} // verus!
