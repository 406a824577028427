//! Per-bus ownership, tracked per connection.
//!
//! A bus is held by at most one client at a time. A client may take a bus
//! that is free or that it already holds; only the holder can give it back.
//! Every bus is stored under an integer key (`bus_key`), which is one-to-one.
use vstd::prelude::*;
use std::collections::HashMap;
use crate::client::ClientId;

verus! {

/// The unit of ownership: a GPIO pin, a whole I2C bus, one SPI chip select,
/// or one UART port.
#[derive(Clone, Copy, Debug, PartialEq, Eq, Hash, Structural)]
pub enum BusId {
    Gpio(u32),
    I2c(u8),
    Spi(u8, u8),
    Uart(u8),
}

/// The integer under which a bus is stored: the kind in the upper half,
/// the bus's own numbers in the lower half.
pub open spec fn bus_key(bus: BusId) -> u64 {
    match bus {
        BusId::Gpio(pin) => pin as u64,
        BusId::I2c(b) => (0x1_0000_0000u64 + b as u64) as u64,
        BusId::Spi(b, cs) => (0x2_0000_0000u64 + b as u64 * 256 + cs as u64) as u64,
        BusId::Uart(port) => (0x3_0000_0000u64 + port as u64) as u64,
    }
}

/// Two buses share a key only if they are the same bus.
pub proof fn lemma_bus_key_injective(a: BusId, b: BusId)
    ensures
        bus_key(a) == bus_key(b) <==> a == b,
{
}

/// Computes `bus_key`.
pub fn key_of(bus: BusId) -> (k: u64)
    ensures
        k == bus_key(bus),
{
    match bus {
        BusId::Gpio(pin) => pin as u64,
        BusId::I2c(b) => 0x1_0000_0000u64 + b as u64,
        BusId::Spi(b, cs) => 0x2_0000_0000u64 + b as u64 * 256 + cs as u64,
        BusId::Uart(port) => 0x3_0000_0000u64 + port as u64,
    }
}

/// Which client holds which bus.
pub struct LockTable {
    holders: HashMap<u64, ClientId>,
}

impl View for LockTable {
    type V = Map<BusId, ClientId>;

    /// The holder of each held bus.
    closed spec fn view(&self) -> Map<BusId, ClientId> {
        Map::new(
            |b: BusId| self.holders@.contains_key(bus_key(b)),
            |b: BusId| self.holders@[bus_key(b)],
        )
    }
}

/// `bus` is free or already held by `client`.
pub open spec fn may_take(holders: Map<BusId, ClientId>, bus: BusId, client: ClientId) -> bool {
    !holders.contains_key(bus) || holders[bus] == client
}

/// `bus` is held by `client`.
pub open spec fn held_by(holders: Map<BusId, ClientId>, bus: BusId, client: ClientId) -> bool {
    holders.contains_key(bus) && holders[bus] == client
}

/// Taking a free bus and giving it back leaves the table as it was.
pub proof fn lemma_release_undoes_acquire(
    holders: Map<BusId, ClientId>,
    bus: BusId,
    client: ClientId,
)
    requires
        !holders.contains_key(bus),
    ensures
        may_take(holders, bus, client),
        held_by(holders.insert(bus, client), bus, client),
        holders.insert(bus, client).remove(bus) == holders,
{
    assert(holders.insert(bus, client).remove(bus) =~= holders);
}

/// While one client holds a bus, every other client is refused it, and the
/// holder may take it again without change.
pub proof fn lemma_holder_excludes_others(
    holders: Map<BusId, ClientId>,
    bus: BusId,
    owner: ClientId,
    other: ClientId,
)
    requires
        held_by(holders, bus, owner),
        other != owner,
    ensures
        !may_take(holders, bus, other),
        may_take(holders, bus, owner),
        holders.insert(bus, owner) == holders,
{
    assert(holders.insert(bus, owner) =~= holders);
}

/// A reconnect of the same process is a new session and thus a different
/// owner: what the old session holds, the new one is refused.
pub proof fn lemma_new_session_is_another_owner(
    holders: Map<BusId, ClientId>,
    bus: BusId,
    uid: u32,
    pid: u32,
    old_session: u64,
    new_session: u64,
)
    requires
        old_session != new_session,
        held_by(holders, bus, ClientId::Local { uid, pid, session_id: old_session }),
    ensures
        !may_take(holders, bus, ClientId::Local { uid, pid, session_id: new_session }),
{
}

/// A client that does not hold a bus cannot give it back: the table stays
/// as it is and the holder keeps the bus.
pub proof fn lemma_non_owner_cannot_release(
    holders: Map<BusId, ClientId>,
    bus: BusId,
    owner: ClientId,
    other: ClientId,
)
    requires
        held_by(holders, bus, owner),
        other != owner,
    ensures
        !held_by(holders, bus, other),
{
}

/// One call on a lock table: `try_acquire` or a release (`release`,
/// `release_with`) of a bus by a client.
pub enum LockRequest {
    Acquire(BusId, ClientId),
    Release(BusId, ClientId),
}

/// The table after one call.
pub open spec fn lock_step(holders: Map<BusId, ClientId>, req: LockRequest) -> Map<
    BusId,
    ClientId,
> {
    match req {
        LockRequest::Acquire(bus, client) => if may_take(holders, bus, client) {
            holders.insert(bus, client)
        } else {
            holders
        },
        LockRequest::Release(bus, client) => if held_by(holders, bus, client) {
            holders.remove(bus)
        } else {
            holders
        },
    }
}

/// The table after a sequence of calls, first call first.
pub open spec fn lock_run(holders: Map<BusId, ClientId>, reqs: Seq<LockRequest>) -> Map<
    BusId,
    ClientId,
>
    decreases reqs.len(),
{
    if reqs.len() == 0 {
        holders
    } else {
        lock_run(lock_step(holders, reqs[0]), reqs.drop_first())
    }
}

/// Exclusive ownership over any history: once `owner` holds `bus`, any
/// sequence of calls in which `owner` does not give `bus` back, whatever
/// other clients acquire or release and on whatever buses, leaves `owner`
/// holding it. At the end every other client is refused the bus by
/// `try_acquire` with no change to the table, a release by another client
/// changes nothing, and only the owner's own release frees it.
pub proof fn lemma_owner_keeps_bus(
    holders: Map<BusId, ClientId>,
    reqs: Seq<LockRequest>,
    bus: BusId,
    owner: ClientId,
)
    requires
        held_by(holders, bus, owner),
        forall|i: int| 0 <= i < reqs.len() ==> reqs[i] != LockRequest::Release(bus, owner),
    ensures
        held_by(lock_run(holders, reqs), bus, owner),
        forall|other: ClientId|
            other != owner ==> !may_take(lock_run(holders, reqs), bus, other) && lock_step(
                lock_run(holders, reqs),
                LockRequest::Acquire(bus, other),
            ) == lock_run(holders, reqs) && lock_step(
                lock_run(holders, reqs),
                LockRequest::Release(bus, other),
            ) == lock_run(holders, reqs),
        !lock_step(lock_run(holders, reqs), LockRequest::Release(bus, owner)).contains_key(bus),
    decreases reqs.len(),
{
    if reqs.len() > 0 {
        let next = lock_step(holders, reqs[0]);
        assert(reqs[0] != LockRequest::Release(bus, owner));
        assert(held_by(next, bus, owner));
        assert forall|i: int| 0 <= i < reqs.drop_first().len() implies reqs.drop_first()[i]
            != LockRequest::Release(bus, owner) by {
            assert(reqs.drop_first()[i] == reqs[i + 1]);
        }
        lemma_owner_keeps_bus(next, reqs.drop_first(), bus, owner);
    }
    let end = lock_run(holders, reqs);
    assert(end.insert(bus, owner) =~= end);
}

/// The same law from the call that takes the bus: when `try_acquire(bus,
/// owner)` succeeds and no later call is the owner's release of `bus`, the
/// owner still holds the bus after all of them and every other client is
/// refused it.
pub proof fn lemma_acquired_bus_stays_with_owner(
    holders: Map<BusId, ClientId>,
    later: Seq<LockRequest>,
    bus: BusId,
    owner: ClientId,
)
    requires
        may_take(holders, bus, owner),
        forall|i: int| 0 <= i < later.len() ==> later[i] != LockRequest::Release(bus, owner),
    ensures
        held_by(lock_run(holders, seq![LockRequest::Acquire(bus, owner)] + later), bus, owner),
        forall|other: ClientId|
            other != owner ==> !may_take(
                lock_run(holders, seq![LockRequest::Acquire(bus, owner)] + later),
                bus,
                other,
            ),
{
    let reqs = seq![LockRequest::Acquire(bus, owner)] + later;
    assert(reqs.drop_first() =~= later);
    assert(reqs[0] == LockRequest::Acquire(bus, owner));
    lemma_owner_keeps_bus(lock_step(holders, reqs[0]), later, bus, owner);
}

impl LockTable {
    /// A table in which no bus is held.
    pub fn new() -> (t: Self)
        ensures
            t@ == Map::<BusId, ClientId>::empty(),
    {
        let t = LockTable { holders: HashMap::new() };
        assert(t@ =~= Map::<BusId, ClientId>::empty());
        t
    }

    /// The client that holds `bus`, if any.
    pub fn holder(&self, bus: BusId) -> (r: Option<ClientId>)
        ensures
            r == (if self@.contains_key(bus) { Some(self@[bus]) } else { None::<ClientId> }),
    {
        let k = key_of(bus);
        match self.holders.get(&k) {
            Some(existing) => Some(*existing),
            None => None,
        }
    }

    /// Takes `bus` for `client`. When another client holds it, nothing
    /// changes and that holder is returned.
    pub fn try_acquire(&mut self, bus: BusId, client: ClientId) -> (r: Result<(), ClientId>)
        ensures
            may_take(old(self)@, bus, client) ==> r == Ok::<(), ClientId>(()) && final(self)@
                == old(self)@.insert(bus, client),
            !may_take(old(self)@, bus, client) ==> r == Err::<(), ClientId>(old(self)@[bus])
                && final(self)@ == old(self)@,
            final(self)@ == lock_step(old(self)@, LockRequest::Acquire(bus, client)),
    {
        let k = key_of(bus);
        match self.holders.get(&k) {
            Some(existing) if *existing != client => {
                return Err(*existing);
            },
            _ => {},
        }
        self.holders.insert(k, client);
        proof {
            assert forall|b: BusId| #[trigger] self@.contains_key(b) == old(self)@.insert(
                bus,
                client,
            ).contains_key(b) by {
                lemma_bus_key_injective(b, bus);
            }
            assert forall|b: BusId| #[trigger] self@.contains_key(b) implies self@[b] == old(
                self,
            )@.insert(bus, client)[b] by {
                lemma_bus_key_injective(b, bus);
            }
            assert(self@ =~= old(self)@.insert(bus, client));
        }
        Ok(())
    }

    /// Gives `bus` back when `client` holds it. Returns whether it did.
    pub fn release(&mut self, bus: BusId, client: ClientId) -> (r: bool)
        ensures
            r == held_by(old(self)@, bus, client),
            r ==> final(self)@ == old(self)@.remove(bus),
            !r ==> final(self)@ == old(self)@,
            final(self)@ == lock_step(old(self)@, LockRequest::Release(bus, client)),
    {
        let k = key_of(bus);
        let owned = match self.holders.get(&k) {
            Some(existing) => *existing == client,
            None => false,
        };
        if owned {
            self.holders.remove(&k);
            proof {
                assert forall|b: BusId| #[trigger] self@.contains_key(b) == old(self)@.remove(
                    bus,
                ).contains_key(b) by {
                    lemma_bus_key_injective(b, bus);
                }
                assert(self@ =~= old(self)@.remove(bus));
            }
        }
        owned
    }

    /// Gives `bus` back when `client` holds it, running `before_unlock`
    /// after the holder is confirmed and before the bus becomes free.
    /// Returns whether the bus was given back.
    pub fn release_with<F: FnOnce()>(&mut self, bus: BusId, client: &ClientId, before_unlock: F) -> (r: bool)
        requires
            before_unlock.requires(()),
        ensures
            r == held_by(old(self)@, bus, *client),
            r ==> final(self)@ == old(self)@.remove(bus) && before_unlock.ensures((), ()),
            !r ==> final(self)@ == old(self)@,
            final(self)@ == lock_step(old(self)@, LockRequest::Release(bus, *client)),
    {
        if self.holder(bus) == Some(*client) {
            before_unlock();
            self.release(bus, *client)
        } else {
            false
        }
    }
}

} // verus!
