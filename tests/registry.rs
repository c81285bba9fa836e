use coerce_rt::id::ActorId;
use coerce_rt::scheduler::{
    ActorScheduler, BoxedActorRef, GetActor, LookupError, RegisterError, MAILBOX_CAPACITY,
};
use std::any::TypeId;

struct Counter;
struct Echo;

fn entry<A: 'static>(id: ActorId, handle: &'static str) -> BoxedActorRef<&'static str> {
    BoxedActorRef { id, kind: TypeId::of::<A>(), handle }
}

#[test]
fn new_scheduler_is_empty() {
    let s: ActorScheduler<&'static str> = ActorScheduler::new();
    assert_eq!(s.len(), 0);
    assert!(!s.contains(ActorId::from_u128(1)));
}

#[test]
fn register_then_get_returns_same_identity() {
    let mut s = ActorScheduler::new();
    let id = ActorId::new_v4();
    assert_eq!(s.register(entry::<Counter>(id, "counter")), Ok(()));
    assert_eq!(s.len(), 1);
    assert!(s.contains(id));
    let got = s.get(&GetActor::<Counter>::new(id)).ok().unwrap();
    assert_eq!(got.id, id);
    assert_eq!(got.handle, "counter");
    assert_eq!(got.kind, TypeId::of::<Counter>());
}

#[test]
fn get_unregistered_id_is_unknown() {
    let mut s = ActorScheduler::new();
    let id = ActorId::from_u128(10);
    s.register(entry::<Counter>(id, "counter")).unwrap();
    let r = s.get(&GetActor::<Counter>::new(ActorId::from_u128(11)));
    assert_eq!(r.err(), Some(LookupError::UnknownActor));
    let empty: ActorScheduler<&'static str> = ActorScheduler::new();
    assert_eq!(
        empty.get(&GetActor::<Counter>::new(ActorId::new_v4())).err(),
        Some(LookupError::UnknownActor)
    );
}

#[test]
fn get_with_wrong_type_is_a_mismatch() {
    let mut s = ActorScheduler::new();
    let id = ActorId::from_u128(42);
    s.register(entry::<Counter>(id, "counter")).unwrap();
    let r = s.get(&GetActor::<Echo>::new(id));
    assert_eq!(r.err(), Some(LookupError::TypeMismatch));
    assert!(s.get(&GetActor::<Counter>::new(id)).is_ok());
}

#[test]
fn duplicate_id_is_refused_and_entry_kept() {
    let mut s = ActorScheduler::new();
    let id = ActorId::from_u128(5);
    s.register(entry::<Counter>(id, "first")).unwrap();
    assert_eq!(s.register(entry::<Echo>(id, "second")), Err(RegisterError::DuplicateId));
    assert_eq!(s.len(), 1);
    assert_eq!(s.get(&GetActor::<Counter>::new(id)).ok().unwrap().handle, "first");
    assert_eq!(s.get(&GetActor::<Echo>::new(id)).err(), Some(LookupError::TypeMismatch));
}

#[test]
fn many_registrations_keep_every_entry() {
    let mut s = ActorScheduler::new();
    let mut ids = Vec::new();
    for _ in 0..100 {
        let id = s.fresh_id().unwrap();
        assert!(!s.contains(id));
        assert_eq!((id.as_u128() >> 76) & 0xF, 4);
        assert_eq!(s.register(entry::<Echo>(id, "echo")), Ok(()));
        ids.push(id);
    }
    assert_eq!(s.len(), 100);
    for id in ids {
        assert_eq!(s.get(&GetActor::<Echo>::new(id)).ok().unwrap().id, id);
    }
}

#[test]
fn fresh_id_on_empty_registry_succeeds() {
    let s: ActorScheduler<&'static str> = ActorScheduler::new();
    let id = s.fresh_id().unwrap();
    assert_eq!((id.as_u128() >> 76) & 0xF, 4);
    assert!(!s.contains(id));
}

#[test]
fn registry_grows_by_one_per_registration() {
    let mut s = ActorScheduler::new();
    s.register(entry::<Counter>(ActorId::from_u128(1), "a")).unwrap();
    s.register(entry::<Counter>(ActorId::from_u128(2), "b")).unwrap();
    assert_eq!(s.len(), 2);
    assert_eq!(s.get(&GetActor::<Counter>::new(ActorId::from_u128(1))).ok().unwrap().handle, "a");
}

#[test]
fn get_actor_request_keeps_its_id() {
    let id = ActorId::from_u128(99);
    assert_eq!(GetActor::<Counter>::new(id).actor_id(), id);
}

#[test]
fn mailbox_capacity_is_bounded() {
    assert_eq!(MAILBOX_CAPACITY, 128);
}
