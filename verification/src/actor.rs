//! The single owner of the data store: it takes one request at a time and
//! answers each, so that many tasks can use one store without sharing it.

use crate::data_store::{change_time, updated_all, updated_data, DataStore};
use crate::id::Id;
use crate::models::Data;
use crate::table::{lookup, wrote, Table};
use crate::timestamp::Timestamp;
use vstd::prelude::*;
use vstd::string::StringExecFns;

verus! {

/// Why a request never reached the owner of the store, or its answer never
/// came back.
#[derive(Debug, Clone, Copy, PartialEq, Eq, Structural)]
pub enum ActorMessageError {
    /// The owner is gone.
    SendError,
    /// The answer was dropped.
    RecvError,
}

impl ActorMessageError {
    /// The failure in words.
    pub fn to_string(&self) -> (r: String)
        ensures
            r@ == match *self {
                ActorMessageError::SendError => "failed to send the message to the actor."@,
                ActorMessageError::RecvError => "failed to receive the message from the actor."@,
            },
    {
        match self {
            ActorMessageError::SendError => "failed to send the message to the actor.".to_owned(),
            ActorMessageError::RecvError => {
                "failed to receive the message from the actor.".to_owned()
            },
        }
    }
}

/// What a client of the store's owner can meet: a failure of the exchange, or
/// the store's own failure.
#[derive(Debug, Clone, PartialEq)]
pub enum Error<E> {
    ActorMessageError(ActorMessageError),
    DataRepositoryError(E),
}

impl<E> Error<E> {
    /// The failure in words, given the words of the store's own failure.
    pub fn describe(&self, inner: &str) -> (r: String)
        ensures
            r@ == match *self {
                Error::ActorMessageError(ActorMessageError::SendError) => {
                    "Actor message error: failed to send the message to the actor."@
                },
                Error::ActorMessageError(ActorMessageError::RecvError) => {
                    "Actor message error: failed to receive the message from the actor."@
                },
                Error::DataRepositoryError(_) => "DataRepository error: "@ + inner@,
            },
    {
        match self {
            Error::ActorMessageError(ActorMessageError::SendError) => {
                "Actor message error: failed to send the message to the actor.".to_owned()
            },
            Error::ActorMessageError(ActorMessageError::RecvError) => {
                "Actor message error: failed to receive the message from the actor.".to_owned()
            },
            Error::DataRepositoryError(_) => "DataRepository error: ".to_owned().concat(inner),
        }
    }
}

/// What a client makes of an exchange: the store's answer where one came
/// back, with the store's failure wrapped; else the failure of the exchange.
pub open spec fn client_result<T, E>(sent: bool, answer: Option<Result<T, E>>) -> Result<
    T,
    Error<E>,
> {
    if !sent {
        Err(Error::ActorMessageError(ActorMessageError::SendError))
    } else {
        match answer {
            Some(Ok(value)) => Ok(value),
            Some(Err(e)) => Err(Error::DataRepositoryError(e)),
            None => Err(Error::ActorMessageError(ActorMessageError::RecvError)),
        }
    }
}

/// What a client returns for a request: `sent` tells whether the request
/// went out, `answer` holds what came back, if anything did.
pub fn conclude<T, E>(sent: bool, answer: Option<Result<T, E>>) -> (r: Result<T, Error<E>>)
    ensures
        r == client_result(sent, answer),
{
    if !sent {
        return Err(Error::ActorMessageError(ActorMessageError::SendError));
    }
    match answer {
        Some(Ok(value)) => Ok(value),
        Some(Err(e)) => Err(Error::DataRepositoryError(e)),
        None => Err(Error::ActorMessageError(ActorMessageError::RecvError)),
    }
}

/// A request to the owner of the store: one for each operation of the store.
pub enum Message {
    Get { id: Id },
    GetMultiple { ids: Vec<Id> },
    GetAll,
    Update { id: Id, hash: crate::hash::Hash },
    UpdateMultiple { map: Table<crate::hash::Hash> },
    Delete { id: Id },
}

/// The answer to a request, of the same kind as the request.
pub enum Reply<E> {
    Get(Result<Option<Data>, E>),
    GetMultiple(Result<Table<Data>, E>),
    GetAll(Result<Table<Data>, E>),
    Update(Result<Option<Timestamp>, E>),
    UpdateMultiple(Result<(), E>),
    Delete(Result<Option<Data>, E>),
}

impl Message {
    /// Whether the request can be served: a batch must hold no id twice.
    pub open spec fn wf(&self) -> bool {
        match *self {
            Message::UpdateMultiple { map } => map.wf(),
            _ => true,
        }
    }
}

/// The owner of a data store.
pub struct DataRepositoryActor {
    inner: DataStore,
}

impl View for DataRepositoryActor {
    type V = Map<Seq<char>, Data>;

    closed spec fn view(&self) -> Map<Seq<char>, Data> {
        self.inner@
    }
}

impl DataRepositoryActor {
    /// Whether the store that is owned is well formed.
    pub closed spec fn wf(&self) -> bool {
        self.inner.wf()
    }

    /// The owner of `inner`.
    pub fn new(inner: DataStore) -> (r: DataRepositoryActor)
        requires
            inner.wf(),
        ensures
            r.wf(),
            r@ == inner@,
    {
        DataRepositoryActor { inner }
    }

    /// Serves one request at the instant `now` and gives the answer.
    ///
    /// Reading leaves the store as it is and cannot fail. A change is
    /// written out by `persist` before it is answered: the answer is a
    /// success only where `persist` succeeded on the store as the change
    /// leaves it. Where the write fails the store is as it was before the
    /// request, and the answer holds the failure.
    pub fn handle<E, F: FnOnce(&Table<Data>) -> Result<(), E>>(
        &mut self,
        message: Message,
        now: Timestamp,
        persist: F,
    ) -> (r: Reply<E>)
        requires
            old(self).wf(),
            message.wf(),
            forall|table: &Table<Data>| table.wf() ==> #[trigger] persist.requires((table,)),
        ensures
            final(self).wf(),
            match message {
                Message::Get { id } => {
                    &&& r == Reply::<E>::Get(Ok(lookup(old(self)@, id@)))
                    &&& final(self)@ == old(self)@
                },
                Message::GetMultiple { ids } => {
                    &&& r is GetMultiple
                    &&& r->GetMultiple_0.is_ok()
                    &&& r->GetMultiple_0->Ok_0.wf()
                    &&& r->GetMultiple_0->Ok_0@ == old(self)@.restrict(
                        Set::new(|key: Seq<char>| crate::data_store::asked(ids@, key)),
                    )
                    &&& final(self)@ == old(self)@
                },
                Message::GetAll => {
                    &&& r is GetAll
                    &&& r->GetAll_0.is_ok()
                    &&& r->GetAll_0->Ok_0.wf()
                    &&& r->GetAll_0->Ok_0@ == old(self)@
                    &&& final(self)@ == old(self)@
                },
                Message::Update { id, hash } => {
                    &&& r is Update
                    &&& match r->Update_0 {
                        Ok(time) => {
                            &&& final(self)@ == old(self)@.insert(
                                id@,
                                updated_data(lookup(old(self)@, id@), hash, now),
                            )
                            &&& time == change_time(lookup(old(self)@, id@), hash, now)
                            &&& exists|written: Result<(), E>|
                                written.is_ok() && #[trigger] wrote(
                                    persist,
                                    final(self)@,
                                    written,
                                )
                        },
                        Err(e) => {
                            &&& final(self)@ == old(self)@
                            &&& wrote(
                                persist,
                                old(self)@.insert(
                                    id@,
                                    updated_data(lookup(old(self)@, id@), hash, now),
                                ),
                                Err(e),
                            )
                        },
                    }
                },
                Message::UpdateMultiple { map } => {
                    &&& r is UpdateMultiple
                    &&& match r->UpdateMultiple_0 {
                        Ok(_) => {
                            &&& final(self)@ == updated_all(old(self)@, map@, now)
                            &&& exists|written: Result<(), E>|
                                written.is_ok() && #[trigger] wrote(
                                    persist,
                                    final(self)@,
                                    written,
                                )
                        },
                        Err(e) => {
                            &&& final(self)@ == old(self)@
                            &&& wrote(persist, updated_all(old(self)@, map@, now), Err(e))
                        },
                    }
                },
                Message::Delete { id } => {
                    &&& r is Delete
                    &&& match r->Delete_0 {
                        Ok(gone) => {
                            &&& final(self)@ == old(self)@.remove(id@)
                            &&& gone == lookup(old(self)@, id@)
                            &&& exists|written: Result<(), E>|
                                written.is_ok() && #[trigger] wrote(
                                    persist,
                                    final(self)@,
                                    written,
                                )
                        },
                        Err(e) => {
                            &&& final(self)@ == old(self)@
                            &&& wrote(persist, old(self)@.remove(id@), Err(e))
                        },
                    }
                },
            },
    {
        match message {
            Message::Get { id } => Reply::Get(Ok(self.inner.get(&id))),
            Message::GetMultiple { ids } => Reply::GetMultiple(Ok(self.inner.get_multiple(&ids))),
            Message::GetAll => Reply::GetAll(Ok(self.inner.get_all())),
            Message::Update { id, hash } => Reply::Update(
                self.inner.update_at(id, hash, now, persist),
            ),
            Message::UpdateMultiple { map } => Reply::UpdateMultiple(
                self.inner.update_multiple_at(&map, now, persist),
            ),
            Message::Delete { id } => Reply::Delete(self.inner.delete(id, persist)),
        }
    }
}

} // verus!
