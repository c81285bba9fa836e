use crate::id::{ActorId, V4_BITS, VERSION_VARIANT_MASK};
use std::any::TypeId;
use std::collections::HashMap;
use std::marker::PhantomData;
use vstd::prelude::*;
use vstd::std_specs::hash::group_hash_axioms;

verus! {

broadcast use group_hash_axioms;

#[verifier::external_type_specification]
#[verifier::external_body]
pub struct ExTypeId(TypeId);

/// Relies on std::any::TypeId::of: the identifier of a type. Nothing is stated
/// of its value.
pub assume_specification<T: ?Sized + 'static>[ TypeId::of::<T> ]() -> TypeId;

/// Relies on TypeId's `==`: two identifiers compare equal exactly when they are
/// the same value, which happens exactly when they name the same type.
pub assume_specification[ <TypeId as PartialEq>::eq ](a: &TypeId, b: &TypeId) -> (r: bool)
    ensures
        r == (*a == *b),
;

#[verifier::external_type_specification]
#[verifier::external_body]
#[verifier::reject_recursive_types(T)]
pub struct ExOneshotSender<T>(tokio::sync::oneshot::Sender<T>);

/// How many envelopes an actor's mailbox holds before senders are held back.
pub const MAILBOX_CAPACITY: usize = 128;

/// A request to spawn `actor` and register it; the sender is signalled once the
/// actor has started.
pub struct RegisterActor<A>(pub A, pub tokio::sync::oneshot::Sender<bool>);

/// A type-erased actor reference: the actor's identifier, the identifier of its
/// concrete actor type, and an opaque handle to its mailbox.
pub struct BoxedActorRef<H> {
    pub id: ActorId,
    pub kind: TypeId,
    pub handle: H,
}

/// The reason a registration was refused.
#[derive(Clone, Copy, Debug, PartialEq, Eq, Structural)]
pub enum RegisterError {
    /// An actor with this identifier is already registered.
    DuplicateId,
    /// Every identifier drawn for a new actor was already registered.
    NoFreshId,
}

/// The reason a lookup found no usable reference.
#[derive(Clone, Copy, Debug, PartialEq, Eq, Structural)]
pub enum LookupError {
    /// No actor is registered under the identifier.
    UnknownActor,
    /// An actor is registered under the identifier, with another concrete type.
    TypeMismatch,
}

/// A request to resolve an identifier to a reference to an actor of type `A`.
pub struct GetActor<A: ?Sized + 'static> {
    id: ActorId,
    kind: TypeId,
    _a: PhantomData<A>,
}

impl<A: ?Sized + 'static> GetActor<A> {
    pub fn new(id: ActorId) -> (r: GetActor<A>)
        ensures
            r.id() == id,
    {
        GetActor { id, kind: TypeId::of::<A>(), _a: PhantomData }
    }

    pub closed spec fn id(&self) -> ActorId {
        self.id
    }

    /// The identifier of the requested actor type.
    pub closed spec fn kind(&self) -> TypeId {
        self.kind
    }

    pub fn actor_id(&self) -> (r: ActorId)
        ensures
            r == self.id(),
    {
        self.id
    }
}

/// The outcome of a lookup in a registry, keyed by identifier value.
pub open spec fn lookup_spec<H>(reg: Map<u128, BoxedActorRef<H>>, id: ActorId, kind: TypeId) -> Result<
    BoxedActorRef<H>,
    LookupError,
> {
    if !reg.contains_key(id.value) {
        Err(LookupError::UnknownActor)
    } else if reg[id.value].kind != kind {
        Err(LookupError::TypeMismatch)
    } else {
        Ok(reg[id.value])
    }
}

/// How many random identifiers `fresh_id` draws before it gives up.
pub const MAX_ID_DRAWS: u32 = 8;

/// The registry of the scheduler: type-erased references keyed by actor identifier.
pub struct ActorScheduler<H> {
    actors: HashMap<u128, BoxedActorRef<H>>,
}

impl<H> ActorScheduler<H> {
    /// The registry as a map from identifier value to stored reference.
    pub closed spec fn view(&self) -> Map<u128, BoxedActorRef<H>> {
        self.actors@
    }

    /// The registry is finite and every entry is stored under its own identifier.
    pub open spec fn wf(&self) -> bool {
        &&& self@.dom().finite()
        &&& forall|k: u128| #[trigger] self@.contains_key(k) ==> self@[k].id.value == k
    }

    /// No registered identifier carries the bits of a random UUID, so no draw
    /// can collide with one.
    pub open spec fn no_v4_registered(&self) -> bool {
        forall|k: u128| #[trigger] self@.contains_key(k) ==> k & VERSION_VARIANT_MASK != V4_BITS
    }

    pub fn new() -> (r: ActorScheduler<H>)
        ensures
            r.wf(),
            r@ == Map::<u128, BoxedActorRef<H>>::empty(),
    {
        ActorScheduler { actors: HashMap::new() }
    }

    pub fn len(&self) -> (r: usize)
        ensures
            r == self@.len(),
    {
        self.actors.len()
    }

    pub fn contains(&self, id: ActorId) -> (r: bool)
        ensures
            r == self@.contains_key(id.value),
    {
        self.actors.contains_key(&id.value)
    }

    /// Draws random identifiers until one is not registered yet, making at most
    /// `MAX_ID_DRAWS` draws; `None` if every draw was already taken. The first
    /// draw succeeds whenever no registered identifier is a random UUID, in
    /// particular on an empty registry.
    pub fn fresh_id(&self) -> (r: Option<ActorId>)
        ensures
            r matches Some(id) ==> !self@.contains_key(id.value) && id.is_v4(),
            self.no_v4_registered() ==> r is Some,
            self@ == Map::<u128, BoxedActorRef<H>>::empty() ==> r is Some,
    {
        let mut draws: u32 = 0;
        while draws < MAX_ID_DRAWS
            invariant
                draws <= MAX_ID_DRAWS,
                self.no_v4_registered() ==> draws == 0,
            decreases MAX_ID_DRAWS - draws,
        {
            let id = ActorId::new_v4();
            if !self.contains(id) {
                return Some(id);
            }
            draws = draws + 1;
        }
        None
    }

    /// Adds a reference under its identifier; an identifier is never reused.
    pub fn register(&mut self, entry: BoxedActorRef<H>) -> (r: Result<(), RegisterError>)
        requires
            old(self).wf(),
        ensures
            final(self).wf(),
            old(self)@.contains_key(entry.id.value) ==> r == Err::<(), RegisterError>(
                RegisterError::DuplicateId,
            ) && final(self)@ == old(self)@,
            !old(self)@.contains_key(entry.id.value) ==> r is Ok && final(self)@ == old(
                self,
            )@.insert(entry.id.value, entry) && final(self)@.len() == old(self)@.len() + 1,
    {
        if self.actors.contains_key(&entry.id.value) {
            return Err(RegisterError::DuplicateId);
        }
        let key = entry.id.value;
        let _ = self.actors.insert(key, entry);
        assert forall|k: u128| #[trigger] self@.contains_key(k) implies self@[k].id.value == k by {
            if k != key {
                assert(old(self)@.contains_key(k));
            }
        }
        Ok(())
    }

    /// Resolves an identifier to the stored reference, provided it denotes an
    /// actor of the requested type.
    pub fn get<A: ?Sized + 'static>(&self, request: &GetActor<A>) -> (r: Result<
        &BoxedActorRef<H>,
        LookupError,
    >)
        ensures
            match lookup_spec(self@, request.id(), request.kind()) {
                Ok(e) => r == Ok::<&BoxedActorRef<H>, LookupError>(&e),
                Err(err) => r == Err::<&BoxedActorRef<H>, LookupError>(err),
            },
    {
        match self.actors.get(&request.id.value) {
            None => Err(LookupError::UnknownActor),
            Some(entry) => {
                if entry.kind == request.kind {
                    Ok(entry)
                } else {
                    Err(LookupError::TypeMismatch)
                }
            },
        }
    }
}

/// The registry after each entry of `es` has been offered to `register`, in order.
pub open spec fn registered_after<H>(m: Map<u128, BoxedActorRef<H>>, es: Seq<BoxedActorRef<H>>) -> Map<
    u128,
    BoxedActorRef<H>,
>
    decreases es.len(),
{
    if es.len() == 0 {
        m
    } else {
        let prev = registered_after(m, es.drop_last());
        let e = es.last();
        if prev.contains_key(e.id.value) {
            prev
        } else {
            prev.insert(e.id.value, e)
        }
    }
}

/// Every entry of `es` was accepted by `register` when it was offered.
pub open spec fn all_accepted<H>(m: Map<u128, BoxedActorRef<H>>, es: Seq<BoxedActorRef<H>>) -> bool {
    forall|i: int|
        0 <= i < es.len() ==> !#[trigger] registered_after(m, es.take(i)).contains_key(es[i].id.value)
}

proof fn lemma_registered_stays<H>(m: Map<u128, BoxedActorRef<H>>, es: Seq<BoxedActorRef<H>>, i: int, j: int)
    requires
        0 <= i < j <= es.len(),
        all_accepted(m, es),
    ensures
        registered_after(m, es.take(j)).contains_key(es[i].id.value),
    decreases j,
{
    assert(es.take(j).drop_last() =~= es.take(j - 1));
    if i < j - 1 {
        lemma_registered_stays(m, es, i, j - 1);
    } else {
        assert(es.take(j).last() == es[i]);
    }
}

/// Identifiers are never reused: `N` registrations that all succeed add `N`
/// distinct identifiers, and the registry grows by exactly `N` entries.
pub proof fn lemma_accepted_ids_distinct<H>(m: Map<u128, BoxedActorRef<H>>, es: Seq<BoxedActorRef<H>>)
    requires
        m.dom().finite(),
        all_accepted(m, es),
    ensures
        forall|i: int, j: int| 0 <= i < j < es.len() ==> es[i].id != es[j].id,
        registered_after(m, es).dom().finite(),
        registered_after(m, es).len() == m.len() + es.len(),
    decreases es.len(),
{
    assert forall|i: int, j: int| 0 <= i < j < es.len() implies es[i].id != es[j].id by {
        lemma_registered_stays(m, es, i, j);
        assert(!registered_after(m, es.take(j)).contains_key(es[j].id.value));
    }
    if es.len() > 0 {
        let p = es.drop_last();
        assert forall|i: int| 0 <= i < p.len() implies !#[trigger] registered_after(
            m,
            p.take(i),
        ).contains_key(p[i].id.value) by {
            assert(p.take(i) =~= es.take(i));
            assert(!registered_after(m, es.take(i)).contains_key(es[i].id.value));
        }
        lemma_accepted_ids_distinct(m, p);
        assert(es.take(es.len() - 1) =~= p);
        assert(!registered_after(m, es.take(es.len() - 1)).contains_key(es[es.len() - 1].id.value));
    }
}

/// A registration followed by a lookup of the same identifier with the same
/// actor type yields the registered reference; a lookup of an identifier that
/// was never registered reports an unknown actor.
pub proof fn lemma_register_then_get<H>(
    m: Map<u128, BoxedActorRef<H>>,
    e: BoxedActorRef<H>,
    other: ActorId,
    kind: TypeId,
)
    requires
        !m.contains_key(e.id.value),
        !m.contains_key(other.value),
        other != e.id,
    ensures
        lookup_spec(m.insert(e.id.value, e), e.id, e.kind) == Ok::<BoxedActorRef<H>, LookupError>(e),
        lookup_spec(m.insert(e.id.value, e), e.id, e.kind).unwrap().id == e.id,
        lookup_spec(m.insert(e.id.value, e), other, kind) == Err::<BoxedActorRef<H>, LookupError>(
            LookupError::UnknownActor,
        ),
{
}

/// A lookup never yields a reference to an actor of another type than the one
/// requested: it fails with a type mismatch whenever the stored type differs.
pub proof fn lemma_lookup_type_safe<H>(m: Map<u128, BoxedActorRef<H>>, id: ActorId, kind: TypeId)
    ensures
        lookup_spec(m, id, kind) matches Ok(e) ==> e.kind == kind && m.contains_key(id.value) && m[id.value] == e,
        m.contains_key(id.value) && m[id.value].kind != kind ==> lookup_spec(m, id, kind) == Err::<
            BoxedActorRef<H>,
            LookupError,
        >(LookupError::TypeMismatch),
{
}

} // verus!
