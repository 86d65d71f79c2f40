use patrol::actor::{conclude, ActorMessageError, DataRepositoryActor, Message, Reply};
use patrol::data_store::DataStore;
use patrol::hash;
use patrol::id::Id;
use patrol::models::Data;
use patrol::table::Table;
use patrol::timestamp::Timestamp;

fn id(text: &str) -> Id {
    Id::parse(text.to_owned()).unwrap()
}

fn at(secs: i64) -> Timestamp {
    Timestamp::from_unix_secs(secs)
}

fn saved(_: &Table<Data>) -> Result<(), String> {
    Ok(())
}

fn disk_full(_: &Table<Data>) -> Result<(), String> {
    Err("disk full".to_owned())
}

#[test]
fn client_sees_the_answer_or_the_failure_of_the_exchange() {
    let answer: Option<Result<u8, String>> = Some(Ok(5));
    assert_eq!(conclude(true, answer), Ok(5));
    let answer: Option<Result<u8, String>> = Some(Err("disk full".to_owned()));
    assert_eq!(
        conclude(true, answer),
        Err(patrol::actor::Error::DataRepositoryError("disk full".to_owned()))
    );
    let answer: Option<Result<u8, String>> = None;
    assert_eq!(
        conclude(true, answer),
        Err(patrol::actor::Error::ActorMessageError(ActorMessageError::RecvError))
    );
    let answer: Option<Result<u8, String>> = Some(Ok(5));
    assert_eq!(
        conclude(false, answer),
        Err(patrol::actor::Error::ActorMessageError(ActorMessageError::SendError))
    );
}

#[test]
fn exchange_failures_have_their_texts() {
    assert_eq!(
        ActorMessageError::SendError.to_string(),
        "failed to send the message to the actor."
    );
    assert_eq!(
        ActorMessageError::RecvError.to_string(),
        "failed to receive the message from the actor."
    );
}

#[test]
fn actor_serves_each_kind_of_request() {
    let mut actor = DataRepositoryActor::new(DataStore::new());
    let h = hash::Hash::new(b"a");
    let r = actor.handle(Message::Update { id: id("a"), hash: h }, at(1), saved);
    assert!(matches!(r, Reply::Update(Ok(Some(t))) if t == at(1)));
    let r = actor.handle(Message::Update { id: id("a"), hash: h }, at(2), saved);
    assert!(matches!(r, Reply::Update(Ok(None))));
    let want = Data { hash: Some(h), last_updated: Some(at(1)), last_checked: at(2) };
    let r = actor.handle(Message::Get { id: id("a") }, at(3), saved);
    assert!(matches!(r, Reply::Get(Ok(Some(d))) if d == want));
    let r = actor.handle(Message::Get { id: id("b") }, at(3), saved);
    assert!(matches!(r, Reply::Get(Ok(None))));
    let mut batch = Table::new();
    batch.insert(id("b"), hash::Hash::new(b"b"));
    batch.insert(id("c"), hash::Hash::new(b"c"));
    let r = actor.handle(Message::UpdateMultiple { map: batch }, at(4), saved);
    assert!(matches!(r, Reply::UpdateMultiple(Ok(()))));
    match actor.handle(Message::GetAll, at(5), saved) {
        Reply::GetAll(Ok(all)) => {
            assert_eq!(all.len(), 3);
            assert_eq!(all.get(&id("a")), Some(&want));
            assert_eq!(all.get(&id("c")).unwrap().last_updated, Some(at(4)));
        }
        _ => panic!("another kind of reply"),
    }
    match actor.handle(Message::GetMultiple { ids: vec![id("c"), id("zz")] }, at(5), saved) {
        Reply::GetMultiple(Ok(some)) => {
            assert_eq!(some.len(), 1);
            assert!(some.contains_key(&id("c")));
        }
        _ => panic!("another kind of reply"),
    }
    let r = actor.handle(Message::Delete { id: id("a") }, at(6), saved);
    assert!(matches!(r, Reply::Delete(Ok(Some(d))) if d == want));
    let r = actor.handle(Message::Delete { id: id("a") }, at(6), saved);
    assert!(matches!(r, Reply::Delete(Ok(None))));
}

#[test]
fn actor_answers_a_failed_write_with_the_failure_and_keeps_the_store() {
    let mut actor = DataRepositoryActor::new(DataStore::new());
    let h = hash::Hash::new(b"a");
    actor.handle(Message::Update { id: id("a"), hash: h }, at(1), saved);
    let want = Data { hash: Some(h), last_updated: Some(at(1)), last_checked: at(1) };
    let r = actor.handle(Message::Update { id: id("a"), hash: hash::Hash::new(b"b") }, at(2), disk_full);
    assert!(matches!(r, Reply::Update(Err(e)) if e == "disk full"));
    let r = actor.handle(Message::Delete { id: id("a") }, at(3), disk_full);
    assert!(matches!(r, Reply::Delete(Err(e)) if e == "disk full"));
    let mut batch = Table::new();
    batch.insert(id("a"), hash::Hash::new(b"c"));
    batch.insert(id("n"), hash::Hash::new(b"n"));
    let r = actor.handle(Message::UpdateMultiple { map: batch }, at(4), disk_full);
    assert!(matches!(r, Reply::UpdateMultiple(Err(e)) if e == "disk full"));
    match actor.handle(Message::GetAll, at(5), disk_full) {
        Reply::GetAll(Ok(all)) => {
            assert_eq!(all.len(), 1);
            assert_eq!(all.get(&id("a")), Some(&want));
        }
        _ => panic!("another kind of reply"),
    }
}

#[test]
fn exchange_failures_are_described_with_the_words_of_their_cause() {
    let store: patrol::actor::Error<u8> = patrol::actor::Error::DataRepositoryError(1);
    assert_eq!(store.describe("disk full"), "DataRepository error: disk full");
    let send: patrol::actor::Error<u8> =
        patrol::actor::Error::ActorMessageError(ActorMessageError::SendError);
    assert_eq!(
        send.describe("unused"),
        "Actor message error: failed to send the message to the actor."
    );
    let recv: patrol::actor::Error<u8> =
        patrol::actor::Error::ActorMessageError(ActorMessageError::RecvError);
    assert_eq!(
        recv.describe("unused"),
        "Actor message error: failed to receive the message from the actor."
    );
}

fn listed(table: &Table<Data>) -> Vec<(String, Data)> {
    let mut all: Vec<(String, Data)> = (0..table.len())
        .map(|i| (table.entry_at(i).id.to_string(), table.entry_at(i).value))
        .collect();
    all.sort_by(|a, b| a.0.cmp(&b.0));
    all
}

#[test]
fn actor_hands_each_successful_change_to_the_write() {
    let mut actor = DataRepositoryActor::new(DataStore::new());
    let ha = hash::Hash::new(b"a");
    let hb = hash::Hash::new(b"b");
    let mut written: Vec<Vec<(String, Data)>> = Vec::new();
    let mut record = |table: &Table<Data>| -> Result<(), String> {
        written.push(listed(table));
        Ok(())
    };

    let r = actor.handle(Message::Update { id: id("a"), hash: ha }, at(1), &mut record);
    assert!(matches!(r, Reply::Update(Ok(Some(t))) if t == at(1)));
    let mut batch = Table::new();
    batch.insert(id("a"), ha);
    batch.insert(id("b"), hb);
    let r = actor.handle(Message::UpdateMultiple { map: batch }, at(2), &mut record);
    assert!(matches!(r, Reply::UpdateMultiple(Ok(()))));
    let r = actor.handle(Message::Delete { id: id("a") }, at(3), &mut record);
    assert!(matches!(r, Reply::Delete(Ok(Some(_)))));

    let a1 = Data { hash: Some(ha), last_updated: Some(at(1)), last_checked: at(1) };
    let a2 = Data { hash: Some(ha), last_updated: Some(at(1)), last_checked: at(2) };
    let b2 = Data { hash: Some(hb), last_updated: Some(at(2)), last_checked: at(2) };
    assert_eq!(
        written,
        vec![
            vec![("a".to_owned(), a1)],
            vec![("a".to_owned(), a2), ("b".to_owned(), b2)],
            vec![("b".to_owned(), b2)],
        ]
    );
}

#[test]
fn actor_writes_nothing_for_a_read() {
    let mut actor = DataRepositoryActor::new(DataStore::new());
    actor.handle(Message::Update { id: id("a"), hash: hash::Hash::new(b"a") }, at(1), saved);
    let mut writes = 0;
    let mut count = |_: &Table<Data>| -> Result<(), String> {
        writes += 1;
        Ok(())
    };
    actor.handle(Message::Get { id: id("a") }, at(2), &mut count);
    actor.handle(Message::GetAll, at(2), &mut count);
    actor.handle(Message::GetMultiple { ids: vec![id("a")] }, at(2), &mut count);
    assert_eq!(writes, 0);
}

#[test]
fn actor_writes_once_for_a_change_that_fails() {
    let mut actor = DataRepositoryActor::new(DataStore::new());
    actor.handle(Message::Update { id: id("a"), hash: hash::Hash::new(b"a") }, at(1), saved);
    let mut written: Vec<Vec<(String, Data)>> = Vec::new();
    let mut refuse = |table: &Table<Data>| -> Result<(), String> {
        written.push(listed(table));
        Err("disk full".to_owned())
    };
    let hb = hash::Hash::new(b"b");
    let r = actor.handle(Message::Update { id: id("a"), hash: hb }, at(2), &mut refuse);
    assert!(matches!(r, Reply::Update(Err(e)) if e == "disk full"));
    let staged = Data { hash: Some(hb), last_updated: Some(at(2)), last_checked: at(2) };
    assert_eq!(written, vec![vec![("a".to_owned(), staged)]]);
    let held = Data {
        hash: Some(hash::Hash::new(b"a")),
        last_updated: Some(at(1)),
        last_checked: at(1),
    };
    let r = actor.handle(Message::Get { id: id("a") }, at(3), saved);
    assert!(matches!(r, Reply::Get(Ok(Some(d))) if d == held));
}
