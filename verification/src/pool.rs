//! The pool manager: a registry that holds at most one connection pool for
//! each instance, and the decisions that an acquisition is made of.

use vstd::prelude::*;
use crate::error::{ErrorModel, GatewayError};
use crate::locator::Endpoint;
use crate::text::{same_text, texts};

verus! {

/// A pool and the instance that it serves.
pub struct PoolEntry<P> {
    instance: String,
    pool: P,
}

/// The pools of the gateway, by the instance that each serves.
pub struct PoolRegistry<P> {
    entries: Vec<PoolEntry<P>>,
}

/// In a sequence without duplicates an item is found at its own place.
proof fn lemma_index_of_unique(names: Seq<Seq<char>>, i: int)
    requires
        names.no_duplicates(),
        0 <= i < names.len(),
    ensures
        names.index_of(names[i]) == i,
{
    let j = names.index_of(names[i]);
    assert(0 <= j < names.len() && names[j] == names[i]);
}

impl<P> PoolRegistry<P> {
    /// The instances that have a pool, in the order in which they got it.
    pub closed spec fn names(&self) -> Seq<Seq<char>> {
        Seq::new(self.entries@.len(), |i: int| self.entries@[i].instance@)
    }

    /// The pools, in the order of [`Self::names`].
    pub closed spec fn pools(&self) -> Seq<P> {
        Seq::new(self.entries@.len(), |i: int| self.entries@[i].pool)
    }

    /// No instance has more than one pool.
    pub open spec fn wf(&self) -> bool {
        self.names().no_duplicates() && self.pools().len() == self.names().len()
    }

    #[verifier::type_invariant]
    spec fn always_well_formed(&self) -> bool {
        self.wf()
    }

    /// Whether the instance has a pool.
    pub open spec fn holds(&self, instance: Seq<char>) -> bool {
        self.names().contains(instance)
    }

    /// The registry as a map from instance to pool.
    pub open spec fn view(&self) -> Map<Seq<char>, P> {
        Map::new(
            |k: Seq<char>| self.names().contains(k),
            |k: Seq<char>| self.pools()[self.names().index_of(k)],
        )
    }

    /// A registry without pools.
    pub fn new() -> (r: Self)
        ensures
            r.wf(),
            r.names() == Seq::<Seq<char>>::empty(),
            r@ == Map::<Seq<char>, P>::empty(),
    {
        let r = PoolRegistry { entries: Vec::new() };
        assert(r.names() =~= Seq::<Seq<char>>::empty());
        assert(r@ =~= Map::<Seq<char>, P>::empty());
        r
    }

    /// How many instances have a pool.
    pub fn len(&self) -> (n: usize)
        ensures
            n == self.names().len(),
    {
        self.entries.len()
    }

    /// The place of the instance among the entries, if it has a pool.
    fn position(&self, instance: &str) -> (r: Option<usize>)
        ensures
            match r {
                Some(i) => i < self.names().len() && self.names()[i as int] == instance@,
                None => !self.holds(instance@),
            },
    {
        let mut i: usize = 0;
        while i < self.entries.len()
            invariant
                i <= self.entries.len(),
                forall|j: int| 0 <= j < i ==> self.names()[j] != instance@,
            decreases self.entries.len() - i,
        {
            if same_text(self.entries[i].instance.as_str(), instance) {
                return Some(i);
            }
            i += 1;
        }
        None
    }

    /// Whether the instance has a pool.
    pub fn contains(&self, instance: &str) -> (r: bool)
        ensures
            r == self.holds(instance@),
    {
        self.position(instance).is_some()
    }

    /// The pool of the instance, if it has one.
    pub fn get(&self, instance: &str) -> (r: Option<&P>)
        ensures
            self.wf(),
            match r {
                Some(pool) => self@.contains_key(instance@) && *pool == self@[instance@],
                None => !self@.contains_key(instance@),
            },
    {
        proof {
            use_type_invariant(self);
        }
        match self.position(instance) {
            Some(i) => {
                proof {
                    lemma_index_of_unique(self.names(), i as int);
                }
                Some(&self.entries[i].pool)
            },
            None => None,
        }
    }

    /// Gives the instance the pool `pool`. A pool that it had before is
    /// handed back.
    pub fn insert(&mut self, instance: String, pool: P) -> (r: Option<P>)
        ensures
            old(self).wf(),
            final(self).wf(),
            final(self)@ == old(self)@.insert(instance@, pool),
            r == (if old(self).holds(instance@) {
                Some(old(self)@[instance@])
            } else {
                None
            }),
            final(self).names() == (if old(self).holds(instance@) {
                old(self).names()
            } else {
                old(self).names().push(instance@)
            }),
    {
        proof {
            use_type_invariant(&*self);
        }
        let ghost before = *self;
        match self.position(instance.as_str()) {
            Some(i) => {
                let mut entries: Vec<PoolEntry<P>> = Vec::new();
                std::mem::swap(&mut entries, &mut self.entries);
                assert(self.names() =~= Seq::<Seq<char>>::empty());
                let removed = entries.remove(i);
                entries.insert(i, PoolEntry { instance, pool });
                proof {
                    let after = PoolRegistry { entries };
                    assert(after.names() =~= before.names());
                    assert(after.pools().len() == after.names().len());
                }
                self.entries = entries;
                proof {
                    assert(self.names() =~= before.names());
                    lemma_index_of_unique(before.names(), i as int);
                    assert(self.pools().len() == self.names().len());
                    assert forall|k: Seq<char>| self.names().contains(k) implies #[trigger] self@[k]
                        == before@.insert(instance@, pool)[k] by {
                        let j = self.names().index_of(k);
                        assert(self.names()[j] == k);
                        if k != instance@ {
                            assert(j != i);
                        } else {
                            assert(j == i);
                        }
                    }
                    assert(self@ =~= before@.insert(instance@, pool));
                }
                Some(removed.pool)
            },
            None => {
                let mut entries: Vec<PoolEntry<P>> = Vec::new();
                std::mem::swap(&mut entries, &mut self.entries);
                assert(self.names() =~= Seq::<Seq<char>>::empty());
                entries.push(PoolEntry { instance, pool });
                proof {
                    let after = PoolRegistry { entries };
                    assert(after.names() =~= before.names().push(instance@));
                    assert(after.pools().len() == after.names().len());
                }
                self.entries = entries;
                proof {
                    assert(self.names() =~= before.names().push(instance@));
                    assert(self.names().no_duplicates());
                    let last = before.names().len() as int;
                    lemma_index_of_unique(self.names(), last);
                    assert forall|k: Seq<char>| self.names().contains(k) implies #[trigger] self@[k]
                        == before@.insert(instance@, pool)[k] by {
                        let j = self.names().index_of(k);
                        assert(self.names()[j] == k);
                        if k != instance@ {
                            assert(j < last);
                            assert(before.names()[j] == k);
                            lemma_index_of_unique(before.names(), j);
                        }
                    }
                    assert forall|k: Seq<char>| self.names().contains(k) <==> before@.insert(
                        instance@,
                        pool,
                    ).contains_key(k) by {
                        if before.names().contains(k) {
                            let j = before.names().index_of(k);
                            assert(self.names()[j] == k);
                        }
                        if k == instance@ {
                            assert(self.names()[last] == k);
                        }
                    }
                    assert(self@ =~= before@.insert(instance@, pool));
                }
                None
            },
        }
    }

    /// Takes the pool of the instance out of the registry, if it has one,
    /// and hands it back.
    pub fn remove(&mut self, instance: &str) -> (r: Option<P>)
        ensures
            old(self).wf(),
            final(self).wf(),
            final(self)@ == old(self)@.remove(instance@),
            !final(self).holds(instance@),
            r == (if old(self).holds(instance@) {
                Some(old(self)@[instance@])
            } else {
                None
            }),
    {
        proof {
            use_type_invariant(&*self);
        }
        let ghost before = *self;
        match self.position(instance) {
            Some(i) => {
                let mut entries: Vec<PoolEntry<P>> = Vec::new();
                std::mem::swap(&mut entries, &mut self.entries);
                assert(self.names() =~= Seq::<Seq<char>>::empty());
                let removed = entries.remove(i);
                proof {
                    let after = PoolRegistry { entries };
                    assert(after.names() =~= before.names().remove(i as int));
                    assert(after.pools().len() == after.names().len());
                    assert forall|a: int, b: int|
                        0 <= a < after.names().len() && 0 <= b < after.names().len() && a != b
                        implies after.names()[a] != after.names()[b] by {
                        let x = if a < i { a } else { a + 1 };
                        let y = if b < i { b } else { b + 1 };
                        assert(before.names()[x] == after.names()[a]);
                        assert(before.names()[y] == after.names()[b]);
                    }
                }
                self.entries = entries;
                proof {
                    lemma_index_of_unique(before.names(), i as int);
                    assert(self.names() =~= before.names().remove(i as int));
                    assert(self.pools() =~= before.pools().remove(i as int));
                    assert forall|a: int, b: int|
                        0 <= a < self.names().len() && 0 <= b < self.names().len() && a != b
                        implies self.names()[a] != self.names()[b] by {
                        let x = if a < i { a } else { a + 1 };
                        let y = if b < i { b } else { b + 1 };
                        assert(before.names()[x] == self.names()[a]);
                        assert(before.names()[y] == self.names()[b]);
                    }
                    assert forall|k: Seq<char>| self.names().contains(k) <==> before@.remove(
                        instance@,
                    ).contains_key(k) by {
                        if self.names().contains(k) {
                            let j = self.names().index_of(k);
                            let x = if j < i { j } else { j + 1 };
                            assert(before.names()[x] == k);
                        }
                        if before.names().contains(k) && k != instance@ {
                            let j = before.names().index_of(k);
                            assert(j != i);
                            let x = if j < i { j } else { j - 1 };
                            assert(self.names()[x] == k);
                        }
                    }
                    assert forall|k: Seq<char>| self.names().contains(k) implies #[trigger] self@[k]
                        == before@.remove(instance@)[k] by {
                        let j = self.names().index_of(k);
                        let x = if j < i { j } else { j + 1 };
                        assert(before.names()[x] == k);
                        lemma_index_of_unique(before.names(), x);
                    }
                    assert(self@ =~= before@.remove(instance@));
                }
                Some(removed.pool)
            },
            None => {
                assert(self@ =~= before@.remove(instance@));
                None
            },
        }
    }

    /// The instances that have a pool.
    pub fn registered(&self) -> (r: Vec<String>)
        ensures
            self.wf(),
            texts(r@) == self.names(),
    {
        proof {
            use_type_invariant(self);
        }
        let mut r: Vec<String> = Vec::new();
        let mut i: usize = 0;
        while i < self.entries.len()
            invariant
                i <= self.entries.len(),
                r.len() == i,
                forall|j: int| 0 <= j < i ==> (#[trigger] r@[j])@ == self.entries@[j].instance@,
            decreases self.entries.len() - i,
        {
            r.push(self.entries[i].instance.clone());
            i += 1;
        }
        assert(texts(r@) =~= self.names());
        r
    }
}

/// No instance has more than one pool: two places of a registry that
/// name the same instance are one place.
pub proof fn lemma_at_most_one_pool<P>(registry: PoolRegistry<P>, i: int, j: int)
    requires
        registry.wf(),
        0 <= i < registry.names().len(),
        0 <= j < registry.names().len(),
        registry.names()[i] == registry.names()[j],
    ensures
        i == j,
{
}

/// The bounds of a pool.
#[derive(Debug, Clone, Copy, PartialEq, Eq, Structural)]
pub struct PoolLimits {
    /// The most connections that the pool opens; the pool's own choice
    /// where none is set.
    pub max_size: Option<u64>,
    /// The seconds that a request waits for a connection.
    pub wait_seconds: u64,
}

/// A pool together with what is known of it: where it connects to and
/// with which password, its bounds, when it was made and when it last
/// gave a connection.
#[derive(Debug, Clone, PartialEq, Eq)]
pub struct PoolRecord<H> {
    pub handle: H,
    pub endpoint: Endpoint,
    pub limits: PoolLimits,
    /// The second at which the pool was made.
    pub created_at: i64,
    /// The second at which the pool last gave a connection, if it ever did.
    pub last_success_at: Option<i64>,
}

impl<H> PoolRecord<H> {
    /// The record of a pool that was made at the second `now`.
    pub fn opened(handle: H, endpoint: Endpoint, limits: PoolLimits, now: i64) -> (r: Self)
        ensures
            r == (PoolRecord { handle, endpoint, limits, created_at: now, last_success_at: None }),
    {
        PoolRecord { handle, endpoint, limits, created_at: now, last_success_at: None }
    }
}

/// The record of a pool after it gave a connection at the second `now`.
pub open spec fn after_success<H>(record: PoolRecord<H>, now: i64) -> PoolRecord<H> {
    PoolRecord {
        handle: record.handle,
        endpoint: record.endpoint,
        limits: record.limits,
        created_at: record.created_at,
        last_success_at: Some(now),
    }
}

impl<H> PoolRegistry<PoolRecord<H>> {
    /// Notes that the pool of the instance gave a connection at the second
    /// `now`. Nothing changes where the instance has no pool.
    pub fn record_success(&mut self, instance: &str, now: i64) -> (r: bool)
        ensures
            final(self).wf(),
            r == old(self).holds(instance@),
            final(self)@ == (if old(self).holds(instance@) {
                old(self)@.insert(instance@, after_success(old(self)@[instance@], now))
            } else {
                old(self)@
            }),
    {
        match self.remove(instance) {
            Some(record) => {
                let ghost without = self@;
                let updated = PoolRecord {
                    handle: record.handle,
                    endpoint: record.endpoint,
                    limits: record.limits,
                    created_at: record.created_at,
                    last_success_at: Some(now),
                };
                let _ = self.insert(instance.to_string(), updated);
                assert(self@ =~= old(self)@.insert(instance@, updated));
                true
            },
            None => {
                assert(self@ =~= old(self)@);
                false
            },
        }
    }
}

/// Why no connection came out of a pool.
#[derive(Debug, Clone, PartialEq, Eq)]
pub enum PoolFailure {
    /// None came free within the wait timeout.
    Timeout,
    /// Connecting to Redis failed.
    Backend(String),
    /// The pool was closed.
    Closed,
}

/// The failure that a request ends with where its fresh pool gives no
/// connection.
pub open spec fn failure_error(failure: PoolFailure) -> ErrorModel {
    match failure {
        PoolFailure::Timeout => ErrorModel::PoolExhausted("timed out waiting for a connection"@),
        PoolFailure::Backend(why) => ErrorModel::RedisUnavailable(why@),
        PoolFailure::Closed => ErrorModel::RedisUnavailable("pool is closed"@),
    }
}

impl PoolFailure {
    /// The failure that a request ends with.
    pub fn into_error(self) -> (e: GatewayError)
        ensures
            e@ == failure_error(self),
    {
        match self {
            PoolFailure::Timeout => GatewayError::PoolExhausted(
                "timed out waiting for a connection".to_string(),
            ),
            PoolFailure::Backend(why) => GatewayError::RedisUnavailable(why),
            PoolFailure::Closed => GatewayError::RedisUnavailable("pool is closed".to_string()),
        }
    }
}

/// How far an acquisition has come.
#[derive(Debug, Clone, Copy, PartialEq, Eq, Structural)]
pub enum AcquireState {
    /// Nothing was done yet.
    Start,
    /// A connection is being checked out of the pool that the instance had.
    Checking,
    /// The endpoint of the instance is being resolved.
    Locating,
    /// A new pool is being built and probed with a `PING`.
    Probing,
    /// A connection is being checked out of the pool that was just built.
    CheckingFresh,
    /// The acquisition has ended.
    Done,
}

/// What happened outside since the last step of an acquisition.
pub enum AcquireEvent<P> {
    /// The request arrived.
    Begin,
    /// A connection was checked out.
    CheckedOut,
    /// No connection could be checked out.
    CheckoutFailed(PoolFailure),
    /// The locator answered.
    Located(Result<Endpoint, GatewayError>),
    /// A pool was built and answered the probe, or it did not.
    Probed(Result<P, String>),
}

/// What is to be done outside before the next step of an acquisition.
#[derive(Debug, Clone, PartialEq, Eq)]
pub enum AcquireAction {
    /// Check a connection out of the pool that the registry holds for the
    /// instance.
    CheckOut,
    /// Resolve the endpoint of the instance.
    Locate,
    /// Build a pool for the endpoint and probe it with a `PING`.
    Probe(Endpoint),
    /// Hand the connection to the request.
    Succeed,
    /// End the request with the failure.
    Fail(GatewayError),
}

/// The mathematical value of an [`AcquireAction`].
pub ghost enum ActionModel {
    CheckOut,
    Locate,
    Probe(Endpoint),
    Succeed,
    Fail(ErrorModel),
}

impl View for AcquireAction {
    type V = ActionModel;

    open spec fn view(&self) -> ActionModel {
        match self {
            AcquireAction::CheckOut => ActionModel::CheckOut,
            AcquireAction::Locate => ActionModel::Locate,
            AcquireAction::Probe(endpoint) => ActionModel::Probe(*endpoint),
            AcquireAction::Succeed => ActionModel::Succeed,
            AcquireAction::Fail(e) => ActionModel::Fail(e@),
        }
    }
}

/// The outcome of one step of an acquisition.
pub struct AcquireStep<P> {
    /// How far the acquisition has come.
    pub state: AcquireState,
    /// What is to be done next.
    pub action: AcquireAction,
    /// A pool that was built in vain, because the instance got one from
    /// another request in the meantime.
    pub surplus: Option<P>,
}

/// One step of an acquisition, as a mathematical value.
pub ghost struct StepModel<P> {
    pub state: AcquireState,
    pub action: ActionModel,
    pub registry: Map<Seq<char>, P>,
    pub surplus: Option<P>,
}

/// One step of an acquisition for `instance`.
///
/// At the start a connection is checked out of the pool that the instance
/// has; where it has none, its endpoint is resolved. Where the check-out
/// fails the pool is dropped and the endpoint resolved as if there had
/// been none. For a resolved endpoint a pool is built and probed. A pool
/// that answered the probe is registered, unless the instance got one in
/// the meantime: then that one stays and the new one is surplus. Either
/// way a connection is checked out of the registered pool; where that
/// fails the pool is dropped and the request fails. An event that does not
/// belong to the state ends the acquisition as a fault of the gateway.
pub open spec fn acquire_step<P>(
    registry: Map<Seq<char>, P>,
    instance: Seq<char>,
    state: AcquireState,
    event: AcquireEvent<P>,
) -> StepModel<P> {
    match (state, event) {
        (AcquireState::Start, AcquireEvent::Begin) => if registry.contains_key(instance) {
            StepModel {
                state: AcquireState::Checking,
                action: ActionModel::CheckOut,
                registry,
                surplus: None,
            }
        } else {
            StepModel {
                state: AcquireState::Locating,
                action: ActionModel::Locate,
                registry,
                surplus: None,
            }
        },
        (AcquireState::Checking, AcquireEvent::CheckedOut)
        | (AcquireState::CheckingFresh, AcquireEvent::CheckedOut) => StepModel {
            state: AcquireState::Done,
            action: ActionModel::Succeed,
            registry,
            surplus: None,
        },
        (AcquireState::Checking, AcquireEvent::CheckoutFailed(_)) => StepModel {
            state: AcquireState::Locating,
            action: ActionModel::Locate,
            registry: registry.remove(instance),
            surplus: None,
        },
        (AcquireState::Locating, AcquireEvent::Located(Ok(endpoint))) => StepModel {
            state: AcquireState::Probing,
            action: ActionModel::Probe(endpoint),
            registry,
            surplus: None,
        },
        (AcquireState::Locating, AcquireEvent::Located(Err(e))) => StepModel {
            state: AcquireState::Done,
            action: ActionModel::Fail(e@),
            registry,
            surplus: None,
        },
        (AcquireState::Probing, AcquireEvent::Probed(Ok(pool))) => if registry.contains_key(
            instance,
        ) {
            StepModel {
                state: AcquireState::CheckingFresh,
                action: ActionModel::CheckOut,
                registry,
                surplus: Some(pool),
            }
        } else {
            StepModel {
                state: AcquireState::CheckingFresh,
                action: ActionModel::CheckOut,
                registry: registry.insert(instance, pool),
                surplus: None,
            }
        },
        (AcquireState::Probing, AcquireEvent::Probed(Err(why))) => StepModel {
            state: AcquireState::Done,
            action: ActionModel::Fail(ErrorModel::RedisUnavailable(why@)),
            registry,
            surplus: None,
        },
        (AcquireState::CheckingFresh, AcquireEvent::CheckoutFailed(failure)) => StepModel {
            state: AcquireState::Done,
            action: ActionModel::Fail(failure_error(failure)),
            registry: registry.remove(instance),
            surplus: None,
        },
        _ => StepModel {
            state: AcquireState::Done,
            action: ActionModel::Fail(ErrorModel::Internal),
            registry,
            surplus: None,
        },
    }
}

impl<P> PoolRegistry<P> {
    /// Takes one step of an acquisition for `instance`.
    pub fn step(&mut self, instance: &str, state: AcquireState, event: AcquireEvent<P>) -> (r:
        AcquireStep<P>)
        ensures
            old(self).wf(),
            final(self).wf(),
            (StepModel {
                state: r.state,
                action: r.action@,
                registry: final(self)@,
                surplus: r.surplus,
            }) == acquire_step(old(self)@, instance@, state, event),
    {
        proof {
            use_type_invariant(&*self);
        }
        match (state, event) {
            (AcquireState::Start, AcquireEvent::Begin) => {
                if self.contains(instance) {
                    AcquireStep {
                        state: AcquireState::Checking,
                        action: AcquireAction::CheckOut,
                        surplus: None,
                    }
                } else {
                    AcquireStep {
                        state: AcquireState::Locating,
                        action: AcquireAction::Locate,
                        surplus: None,
                    }
                }
            },
            (AcquireState::Checking, AcquireEvent::CheckedOut) => AcquireStep {
                state: AcquireState::Done,
                action: AcquireAction::Succeed,
                surplus: None,
            },
            (AcquireState::CheckingFresh, AcquireEvent::CheckedOut) => AcquireStep {
                state: AcquireState::Done,
                action: AcquireAction::Succeed,
                surplus: None,
            },
            (AcquireState::Checking, AcquireEvent::CheckoutFailed(_)) => {
                let _ = self.remove(instance);
                AcquireStep {
                    state: AcquireState::Locating,
                    action: AcquireAction::Locate,
                    surplus: None,
                }
            },
            (AcquireState::Locating, AcquireEvent::Located(Ok(endpoint))) => AcquireStep {
                state: AcquireState::Probing,
                action: AcquireAction::Probe(endpoint),
                surplus: None,
            },
            (AcquireState::Locating, AcquireEvent::Located(Err(e))) => AcquireStep {
                state: AcquireState::Done,
                action: AcquireAction::Fail(e),
                surplus: None,
            },
            (AcquireState::Probing, AcquireEvent::Probed(Ok(pool))) => {
                if self.contains(instance) {
                    AcquireStep {
                        state: AcquireState::CheckingFresh,
                        action: AcquireAction::CheckOut,
                        surplus: Some(pool),
                    }
                } else {
                    let _ = self.insert(instance.to_string(), pool);
                    AcquireStep {
                        state: AcquireState::CheckingFresh,
                        action: AcquireAction::CheckOut,
                        surplus: None,
                    }
                }
            },
            (AcquireState::Probing, AcquireEvent::Probed(Err(why))) => AcquireStep {
                state: AcquireState::Done,
                action: AcquireAction::Fail(GatewayError::RedisUnavailable(why)),
                surplus: None,
            },
            (AcquireState::CheckingFresh, AcquireEvent::CheckoutFailed(failure)) => {
                let _ = self.remove(instance);
                AcquireStep {
                    state: AcquireState::Done,
                    action: AcquireAction::Fail(failure.into_error()),
                    surplus: None,
                }
            },
            _ => AcquireStep {
                state: AcquireState::Done,
                action: AcquireAction::Fail(GatewayError::Internal),
                surplus: None,
            },
        }
    }
}

/// After a check-out failed and the stale pool was dropped, the instance
/// has no pool, the next acquisition for it begins by resolving its
/// endpoint, and the pool that then answers the probe is the one that the
/// instance gets.
pub proof fn lemma_fresh_pool_after_eviction<P>(
    registry: Map<Seq<char>, P>,
    instance: Seq<char>,
    state: AcquireState,
    failure: PoolFailure,
    fresh: P,
)
    requires
        state == AcquireState::Checking || state == AcquireState::CheckingFresh,
    ensures
        ({
            let after = acquire_step(
                registry,
                instance,
                state,
                AcquireEvent::CheckoutFailed(failure),
            ).registry;
            let begin = acquire_step(after, instance, AcquireState::Start, AcquireEvent::Begin);
            let built = acquire_step(
                begin.registry,
                instance,
                AcquireState::Probing,
                AcquireEvent::Probed(Ok(fresh)),
            );
            &&& !after.contains_key(instance)
            &&& begin.action == ActionModel::Locate
            &&& begin.state == AcquireState::Locating
            &&& built.registry.contains_key(instance)
            &&& built.registry[instance] == fresh
            &&& built.surplus is None
        }),
{
}

/// No step of an acquisition touches the pool of another instance.
pub proof fn lemma_step_keeps_other_instances<P>(
    registry: Map<Seq<char>, P>,
    instance: Seq<char>,
    other: Seq<char>,
    state: AcquireState,
    event: AcquireEvent<P>,
)
    requires
        other != instance,
    ensures
        acquire_step(registry, instance, state, event).registry.contains_key(other)
            == registry.contains_key(other),
        registry.contains_key(other) ==> acquire_step(
            registry,
            instance,
            state,
            event,
        ).registry[other] == registry[other],
{
}

/// What a sweep of the registry is to do.
#[derive(Debug, Clone, PartialEq, Eq)]
pub struct RefreshPlan {
    /// The instances whose pools are dropped.
    pub evict: Vec<String>,
    /// The instances for which a pool is built.
    pub create: Vec<String>,
}

/// The items of `items` that are not among `others`, in their order.
pub open spec fn without(items: Seq<Seq<char>>, others: Seq<Seq<char>>) -> Seq<Seq<char>>
    decreases items.len(),
{
    if items.len() == 0 {
        Seq::empty()
    } else if others.contains(items.last()) {
        without(items.drop_last(), others)
    } else {
        without(items.drop_last(), others).push(items.last())
    }
}

/// Whether `name` is among `items`.
pub fn is_among(items: &Vec<String>, name: &str) -> (r: bool)
    ensures
        r == texts(items@).contains(name@),
{
    let mut i: usize = 0;
    while i < items.len()
        invariant
            i <= items.len(),
            forall|j: int| 0 <= j < i ==> texts(items@)[j] != name@,
        decreases items.len() - i,
    {
        if same_text(items[i].as_str(), name) {
            assert(texts(items@)[i as int] == name@);
            return true;
        }
        i += 1;
    }
    false
}

/// The items of `items` that are not among `others`, in their order.
pub fn difference(items: &Vec<String>, others: &Vec<String>) -> (r: Vec<String>)
    ensures
        texts(r@) == without(texts(items@), texts(others@)),
{
    let mut r: Vec<String> = Vec::new();
    let mut i: usize = 0;
    assert(texts(items@).take(0) =~= Seq::<Seq<char>>::empty());
    assert(texts(r@) =~= Seq::<Seq<char>>::empty());
    while i < items.len()
        invariant
            i <= items.len(),
            texts(r@) == without(texts(items@).take(i as int), texts(others@)),
        decreases items.len() - i,
    {
        let ghost before = texts(r@);
        let ghost next = texts(items@).take(i + 1);
        assert(next.drop_last() == texts(items@).take(i as int));
        assert(next.last() == items@[i as int]@);
        if !is_among(others, items[i].as_str()) {
            r.push(items[i].clone());
            assert(texts(r@) =~= before.push(items@[i as int]@));
        }
        i += 1;
    }
    assert(texts(items@).take(items.len() as int) == texts(items@));
    r
}

/// What a sweep is to do: outside the cluster, nothing; inside it, drop
/// the pools of the instances that are no longer live and build one for
/// each live instance that has none.
pub open spec fn refresh_plan(
    names: Seq<Seq<char>>,
    live: Seq<Seq<char>>,
    in_cluster: bool,
) -> (Seq<Seq<char>>, Seq<Seq<char>>) {
    if in_cluster {
        (without(names, live), without(live, names))
    } else {
        (Seq::empty(), Seq::empty())
    }
}

impl<P> PoolRegistry<P> {
    /// Plans a sweep against the instances that are live.
    pub fn plan_refresh(&self, live: &Vec<String>, in_cluster: bool) -> (plan: RefreshPlan)
        ensures
            (texts(plan.evict@), texts(plan.create@)) == refresh_plan(
                self.names(),
                texts(live@),
                in_cluster,
            ),
    {
        if !in_cluster {
            let plan = RefreshPlan { evict: Vec::new(), create: Vec::new() };
            assert(texts(plan.evict@) =~= Seq::<Seq<char>>::empty());
            assert(texts(plan.create@) =~= Seq::<Seq<char>>::empty());
            return plan;
        }
        let registered = self.registered();
        let evict = difference(&registered, live);
        let create = difference(live, &registered);
        RefreshPlan { evict, create }
    }
}

/// An item stays after `without` exactly where it was there and is not
/// among the others.
pub proof fn lemma_without_contains(items: Seq<Seq<char>>, others: Seq<Seq<char>>, name: Seq<char>)
    ensures
        without(items, others).contains(name) <==> items.contains(name) && !others.contains(name),
    decreases items.len(),
{
    if items.len() > 0 {
        let rest = items.drop_last();
        lemma_without_contains(rest, others, name);
        let kept = without(rest, others);
        if items.contains(name) {
            let i = choose|i: int| 0 <= i < items.len() && items[i] == name;
            if i < rest.len() {
                assert(rest[i] == name);
            }
        }
        if rest.contains(name) {
            let i = choose|i: int| 0 <= i < rest.len() && rest[i] == name;
            assert(items[i] == name);
        }
        if !others.contains(items.last()) {
            let out = kept.push(items.last());
            if kept.contains(name) {
                let i = choose|i: int| 0 <= i < kept.len() && kept[i] == name;
                assert(out[i] == name);
            }
            if out.contains(name) {
                let i = choose|i: int| 0 <= i < out.len() && out[i] == name;
                if i < kept.len() {
                    assert(kept[i] == name);
                } else {
                    assert(items[items.len() - 1] == name);
                }
            }
            if name == items.last() {
                assert(out[out.len() - 1] == name);
                assert(items[items.len() - 1] == name);
            }
        } else {
            if name == items.last() {
                assert(items[items.len() - 1] == name);
            }
        }
    }
}

/// A sweep inside the cluster drops exactly the pools of instances that
/// are not live, and builds one exactly for the live instances without.
pub proof fn lemma_refresh_plan(names: Seq<Seq<char>>, live: Seq<Seq<char>>, name: Seq<char>)
    ensures
        refresh_plan(names, live, true).0.contains(name) <==> names.contains(name)
            && !live.contains(name),
        refresh_plan(names, live, true).1.contains(name) <==> live.contains(name)
            && !names.contains(name),
{
    lemma_without_contains(names, live, name);
    lemma_without_contains(live, names, name);
}

/// Whether an instance answered a health probe.
#[derive(Debug, Clone, PartialEq, Eq)]
pub struct InstanceHealth {
    pub instance: String,
    pub ok: bool,
}

/// Whether a probe found the instance in good health: a connection was
/// checked out of its pool and it answered a `PING` on it.
pub open spec fn healthy(checked_out: bool, answered: bool) -> bool {
    checked_out && answered
}

/// Records the outcome of the probe of one instance.
pub fn record_health(
    snapshot: &mut Vec<InstanceHealth>,
    instance: String,
    checked_out: bool,
    answered: bool,
)
    ensures
        final(snapshot)@ == old(snapshot)@.push(
            InstanceHealth { instance, ok: healthy(checked_out, answered) },
        ),
{
    snapshot.push(InstanceHealth { instance, ok: checked_out && answered });
}

} // verus!
