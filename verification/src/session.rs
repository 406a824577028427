//! The per-connection session logic of the daemon: the buses a connection
//! holds, the device handles opened on first use, giving a bus back, the
//! cleanup after a disconnect, and the decision of what a request does
//! before the hardware is touched.
use vstd::prelude::*;
use std::collections::HashMap;
use crate::client::{ClientId, client_text};
use crate::lock::{BusId, LockTable, held_by, may_take};
use crate::protocol::{
    BusRef,
    Operation,
    PullWire,
    Request,
    Response,
    bus_id_of,
    is_failure,
    request_valid,
    violation_text,
};
use crate::hw::PullMode;

verus! {

/// The buses that one connection holds, each listed once.
pub struct HeldBuses {
    buses: Vec<BusId>,
}

impl HeldBuses {
    /// No bus is listed twice.
    #[verifier::type_invariant]
    spec fn listed_once(&self) -> bool {
        self.buses@.no_duplicates()
    }
}

impl View for HeldBuses {
    type V = Set<BusId>;

    closed spec fn view(&self) -> Set<BusId> {
        Set::new(|b: BusId| self.buses@.contains(b))
    }
}

impl HeldBuses {
    /// No bus held.
    pub fn new() -> (r: Self)
        ensures
            r@ == Set::<BusId>::empty(),
    {
        let r = HeldBuses { buses: Vec::new() };
        assert(r@ =~= Set::<BusId>::empty());
        r
    }

    /// Whether `bus` is held.
    pub fn contains(&self, bus: BusId) -> (r: bool)
        ensures
            r == self@.contains(bus),
    {
        let n = self.buses.len();
        let mut i: usize = 0;
        while i < n
            invariant
                n == self.buses@.len(),
                i <= n,
                forall|j: int| 0 <= j < i ==> self.buses@[j] != bus,
            decreases n - i,
        {
            if self.buses[i] == bus {
                assert(self.buses@[i as int] == bus);
                return true;
            }
            i = i + 1;
        }
        false
    }

    /// Whether no bus is held.
    pub fn is_empty(&self) -> (r: bool)
        ensures
            r == (self@ == Set::<BusId>::empty()),
    {
        if self.buses.len() == 0 {
            assert(self@ =~= Set::<BusId>::empty());
            true
        } else {
            assert(self@.contains(self.buses@[0]));
            false
        }
    }

    /// Adds `bus`.
    pub fn insert(&mut self, bus: BusId)
        ensures
            final(self)@ == old(self)@.insert(bus),
    {
        proof {
            use_type_invariant(&*self);
        }
        if !self.contains(bus) {
            let ghost before = self.buses@;
            let mut longer = self.buses.clone();
            longer.push(bus);
            proof {
                assert(longer@ =~= before.push(bus));
                assert forall|i: int, j: int|
                    0 <= i < longer@.len() && 0 <= j < longer@.len() && i != j implies longer@[i]
                    != longer@[j] by {
                    if i == before.len() as int {
                        assert(!before.contains(bus));
                        assert(before[j] == longer@[j]);
                    } else if j == before.len() as int {
                        assert(!before.contains(bus));
                        assert(before[i] == longer@[i]);
                    }
                }
            }
            self.buses = longer;
            proof {
                assert forall|b: BusId| #[trigger] final(self)@.contains(b) == old(self)@.insert(
                    bus,
                ).contains(b) by {
                    if b == bus {
                        assert(self.buses@[self.buses@.len() - 1] == bus);
                    }
                    if old(self)@.contains(b) {
                        let j = choose|j: int|
                            0 <= j < old(self).buses@.len() && old(self).buses@[j] == b;
                        assert(self.buses@[j] == b);
                    }
                    if final(self)@.contains(b) && b != bus {
                        let j = choose|j: int| 0 <= j < self.buses@.len() && self.buses@[j] == b;
                        assert(old(self).buses@[j] == b);
                    }
                }
            }
        }
        assert(final(self)@ =~= old(self)@.insert(bus));
    }

    /// Removes `bus`. Returns whether it was held.
    pub fn remove(&mut self, bus: BusId) -> (r: bool)
        ensures
            r == old(self)@.contains(bus),
            final(self)@ == old(self)@.remove(bus),
    {
        proof {
            use_type_invariant(&*self);
        }
        let n = self.buses.len();
        let mut kept: Vec<BusId> = Vec::new();
        let mut found = false;
        let mut i: usize = 0;
        while i < n
            invariant
                n == self.buses@.len(),
                i <= n,
                self.buses@.no_duplicates(),
                kept@.no_duplicates(),
                found == self.buses@.take(i as int).contains(bus),
                forall|b: BusId|
                    #[trigger] kept@.contains(b) <==> (b != bus && self.buses@.take(
                        i as int,
                    ).contains(b)),
            decreases n - i,
        {
            let b = self.buses[i];
            let ghost prev = kept@;
            if b == bus {
                found = true;
            } else {
                kept.push(b);
            }
            proof {
                if b != bus {
                    if prev.contains(b) {
                        let j = choose|j: int| 0 <= j < i && self.buses@.take(i as int)[j] == b;
                        assert(self.buses@[j] == self.buses@[i as int]);
                    }
                    assert forall|p: int, q: int|
                        0 <= p < kept@.len() && 0 <= q < kept@.len() && p != q implies kept@[p]
                        != kept@[q] by {
                        if p == prev.len() as int {
                            assert(prev[q] == kept@[q]);
                        } else if q == prev.len() as int {
                            assert(prev[p] == kept@[p]);
                        } else {
                            assert(prev[p] == kept@[p] && prev[q] == kept@[q]);
                        }
                    }
                }
                assert(self.buses@.take(i + 1) =~= self.buses@.take(i as int).push(b));
                lemma_push_contains(self.buses@.take(i as int), b, bus);
                assert forall|x: BusId|
                    #[trigger] kept@.contains(x) <==> (x != bus && self.buses@.take(
                        i + 1,
                    ).contains(x)) by {
                    lemma_push_contains(self.buses@.take(i as int), b, x);
                    if b != bus {
                        lemma_push_contains(prev, b, x);
                    }
                }
            }
            i = i + 1;
        }
        assert(self.buses@.take(n as int) =~= self.buses@);
        self.buses = kept;
        assert(final(self)@ =~= old(self)@.remove(bus));
        found
    }

    /// The held buses, as a list in which each occurs once.
    pub fn to_vec(&self) -> (r: Vec<BusId>)
        ensures
            forall|b: BusId| r@.contains(b) <==> self@.contains(b),
            r@.no_duplicates(),
    {
        proof {
            use_type_invariant(self);
        }
        let r = self.buses.clone();
        assert(r@ =~= self.buses@);
        r
    }
}


/// The key under which the handle of SPI bus `bus`, chip select `cs` is kept.
pub open spec fn spi_key(bus: u8, cs: u8) -> u16 {
    (bus as u16 * 256 + cs as u16) as u16
}

fn spi_key_of(bus: u8, cs: u8) -> (k: u16)
    ensures
        k == spi_key(bus, cs),
{
    bus as u16 * 256 + cs as u16
}

proof fn lemma_spi_key_injective(a: (u8, u8), b: (u8, u8))
    ensures
        spi_key(a.0, a.1) == spi_key(b.0, b.1) <==> a == b,
{
}

/// Device handles opened on first use: one per I2C bus, one per SPI bus and
/// chip select, one per UART port. GPIO has no per-pin handle. The handle
/// types are parameters so that dropping them can be observed.
pub struct PeripheralHandles<I, S, U> {
    i2c: HashMap<u8, I>,
    spi: HashMap<u16, S>,
    uart: HashMap<u8, U>,
}

/// A handle is cached for `bus`.
pub open spec fn has_handle<I, S, U>(h: PeripheralHandles<I, S, U>, bus: BusId) -> bool {
    match bus {
        BusId::Gpio(_) => false,
        BusId::I2c(b) => h.i2c_view().contains_key(b),
        BusId::Spi(b, cs) => h.spi_view().contains_key((b, cs)),
        BusId::Uart(p) => h.uart_view().contains_key(p),
    }
}

/// `new` is `old` without the handle of `bus`.
pub open spec fn closed_after<I, S, U>(
    old: PeripheralHandles<I, S, U>,
    new: PeripheralHandles<I, S, U>,
    bus: BusId,
) -> bool {
    match bus {
        BusId::Gpio(_) => same_handles(old, new),
        BusId::I2c(b) => new.i2c_view() == old.i2c_view().remove(b) && new.spi_view()
            == old.spi_view() && new.uart_view() == old.uart_view(),
        BusId::Spi(b, cs) => new.i2c_view() == old.i2c_view() && new.spi_view()
            == old.spi_view().remove((b, cs)) && new.uart_view() == old.uart_view(),
        BusId::Uart(p) => new.i2c_view() == old.i2c_view() && new.spi_view() == old.spi_view()
            && new.uart_view() == old.uart_view().remove(p),
    }
}

/// `new` holds the same handles as `old`.
pub open spec fn same_handles<I, S, U>(
    old: PeripheralHandles<I, S, U>,
    new: PeripheralHandles<I, S, U>,
) -> bool {
    new.i2c_view() == old.i2c_view() && new.spi_view() == old.spi_view() && new.uart_view()
        == old.uart_view()
}

impl<I, S, U> PeripheralHandles<I, S, U> {
    /// The cached I2C handles, by bus number.
    pub closed spec fn i2c_view(&self) -> Map<u8, I> {
        self.i2c@
    }

    /// The cached SPI handles, by bus number and chip select.
    pub closed spec fn spi_view(&self) -> Map<(u8, u8), S> {
        Map::new(
            |k: (u8, u8)| self.spi@.contains_key(spi_key(k.0, k.1)),
            |k: (u8, u8)| self.spi@[spi_key(k.0, k.1)],
        )
    }

    /// The cached UART handles, by port.
    pub closed spec fn uart_view(&self) -> Map<u8, U> {
        self.uart@
    }

    /// No handle cached.
    pub fn new() -> (r: Self)
        ensures
            r.i2c_view() == Map::<u8, I>::empty(),
            r.spi_view() == Map::<(u8, u8), S>::empty(),
            r.uart_view() == Map::<u8, U>::empty(),
    {
        let r = PeripheralHandles { i2c: HashMap::new(), spi: HashMap::new(), uart: HashMap::new() };
        assert(r.spi_view() =~= Map::<(u8, u8), S>::empty());
        r
    }

    /// Drops the cached handle of `bus`, if there is one, and returns whether
    /// there was. GPIO pins share the daemon's register mapping, so nothing
    /// is dropped for them.
    pub fn close(&mut self, bus: BusId) -> (r: bool)
        ensures
            r == has_handle(*old(self), bus),
            closed_after(*old(self), *final(self), bus),
    {
        match bus {
            BusId::Gpio(_) => false,
            BusId::I2c(b) => self.i2c.remove(&b).is_some(),
            BusId::Spi(b, cs) => {
                let k = spi_key_of(b, cs);
                let r = self.spi.remove(&k).is_some();
                proof {
                    assert forall|x: (u8, u8)| #[trigger]
                        self.spi_view().contains_key(x) == old(self).spi_view().remove(
                            (b, cs),
                        ).contains_key(x) by {
                        lemma_spi_key_injective(x, (b, cs));
                    }
                    assert(self.spi_view() =~= old(self).spi_view().remove((b, cs)));
                }
                r
            },
            BusId::Uart(p) => self.uart.remove(&p).is_some(),
        }
    }

    /// Caches `handle` as the handle of I2C bus `bus`.
    pub fn put_i2c(&mut self, bus: u8, handle: I)
        ensures
            final(self).i2c_view() == old(self).i2c_view().insert(bus, handle),
            final(self).spi_view() == old(self).spi_view(),
            final(self).uart_view() == old(self).uart_view(),
    {
        self.i2c.insert(bus, handle);
    }

    /// Takes the handle of I2C bus `bus` out of the cache.
    pub fn take_i2c(&mut self, bus: u8) -> (r: Option<I>)
        ensures
            r == (if old(self).i2c_view().contains_key(bus) {
                Some(old(self).i2c_view()[bus])
            } else {
                None::<I>
            }),
            final(self).i2c_view() == old(self).i2c_view().remove(bus),
            final(self).spi_view() == old(self).spi_view(),
            final(self).uart_view() == old(self).uart_view(),
    {
        self.i2c.remove(&bus)
    }

    /// Caches `handle` as the handle of SPI bus `bus`, chip select `cs`.
    pub fn put_spi(&mut self, bus: u8, cs: u8, handle: S)
        ensures
            final(self).spi_view() == old(self).spi_view().insert((bus, cs), handle),
            final(self).i2c_view() == old(self).i2c_view(),
            final(self).uart_view() == old(self).uart_view(),
    {
        let k = spi_key_of(bus, cs);
        self.spi.insert(k, handle);
        proof {
            assert forall|x: (u8, u8)| #[trigger]
                self.spi_view().contains_key(x) == old(self).spi_view().insert(
                    (bus, cs),
                    handle,
                ).contains_key(x) by {
                lemma_spi_key_injective(x, (bus, cs));
            }
            assert forall|x: (u8, u8)| #[trigger] self.spi_view().contains_key(x) implies
                self.spi_view()[x] == old(self).spi_view().insert((bus, cs), handle)[x] by {
                lemma_spi_key_injective(x, (bus, cs));
            }
            assert(self.spi_view() =~= old(self).spi_view().insert((bus, cs), handle));
        }
    }

    /// Takes the handle of SPI bus `bus`, chip select `cs` out of the cache.
    pub fn take_spi(&mut self, bus: u8, cs: u8) -> (r: Option<S>)
        ensures
            r == (if old(self).spi_view().contains_key((bus, cs)) {
                Some(old(self).spi_view()[(bus, cs)])
            } else {
                None::<S>
            }),
            final(self).spi_view() == old(self).spi_view().remove((bus, cs)),
            final(self).i2c_view() == old(self).i2c_view(),
            final(self).uart_view() == old(self).uart_view(),
    {
        let k = spi_key_of(bus, cs);
        let r = self.spi.remove(&k);
        proof {
            assert forall|x: (u8, u8)| #[trigger]
                self.spi_view().contains_key(x) == old(self).spi_view().remove(
                    (bus, cs),
                ).contains_key(x) by {
                lemma_spi_key_injective(x, (bus, cs));
            }
            assert(self.spi_view() =~= old(self).spi_view().remove((bus, cs)));
        }
        r
    }

    /// Caches `handle` as the handle of UART port `port`.
    pub fn put_uart(&mut self, port: u8, handle: U)
        ensures
            final(self).uart_view() == old(self).uart_view().insert(port, handle),
            final(self).i2c_view() == old(self).i2c_view(),
            final(self).spi_view() == old(self).spi_view(),
    {
        self.uart.insert(port, handle);
    }

    /// Takes the handle of UART port `port` out of the cache.
    pub fn take_uart(&mut self, port: u8) -> (r: Option<U>)
        ensures
            r == (if old(self).uart_view().contains_key(port) {
                Some(old(self).uart_view()[port])
            } else {
                None::<U>
            }),
            final(self).uart_view() == old(self).uart_view().remove(port),
            final(self).i2c_view() == old(self).i2c_view(),
            final(self).spi_view() == old(self).spi_view(),
    {
        self.uart.remove(&port)
    }

    /// Whether a handle is cached for `bus`.
    pub fn has(&self, bus: BusId) -> (r: bool)
        ensures
            r == has_handle(*self, bus),
    {
        match bus {
            BusId::Gpio(_) => false,
            BusId::I2c(b) => self.i2c.contains_key(&b),
            BusId::Spi(b, cs) => {
                let k = spi_key_of(b, cs);
                self.spi.contains_key(&k)
            },
            BusId::Uart(p) => self.uart.contains_key(&p),
        }
    }

    /// Whether no I2C handle is cached.
    pub fn i2c_is_empty(&self) -> (r: bool)
        ensures
            r == (self.i2c_view() == Map::<u8, I>::empty()),
    {
        let r = self.i2c.is_empty();
        assert(r ==> self.i2c_view() =~= Map::<u8, I>::empty());
        r
    }

    /// Whether no SPI handle is cached.
    pub fn spi_is_empty(&self) -> (r: bool)
        ensures
            r == (self.spi_view() == Map::<(u8, u8), S>::empty()),
    {
        let r = self.spi.is_empty();
        proof {
            if r {
                assert(self.spi_view() =~= Map::<(u8, u8), S>::empty());
            } else {
                let k = choose|k: u16| self.spi@.contains_key(k);
                let x: (u8, u8) = ((k / 256) as u8, (k % 256) as u8);
                assert(spi_key(x.0, x.1) == k);
                assert(self.spi_view().contains_key(x));
            }
        }
        r
    }

    /// Whether no UART handle is cached.
    pub fn uart_is_empty(&self) -> (r: bool)
        ensures
            r == (self.uart_view() == Map::<u8, U>::empty()),
    {
        let r = self.uart.is_empty();
        assert(r ==> self.uart_view() =~= Map::<u8, U>::empty());
        r
    }
}

impl<I, S, U> Default for PeripheralHandles<I, S, U> {
    fn default() -> (r: Self)
        ensures
            r.i2c_view() == Map::<u8, I>::empty(),
            r.spi_view() == Map::<(u8, u8), S>::empty(),
            r.uart_view() == Map::<u8, U>::empty(),
    {
        Self::new()
    }
}

/// Gives `bus` back for `client`, if this connection holds it: the bus
/// leaves the connection's set in any case; when the lock table confirms
/// `client` as the holder, the cached device handle is dropped first and
/// the lock removed after it, so the next owner never shares a handle with
/// this one. A client that does not hold the bus changes neither the lock
/// nor the handles. Returns whether the bus was given back.
pub fn release_owned_bus<I, S, U>(
    locks: &mut LockTable,
    handles: &mut PeripheralHandles<I, S, U>,
    client: &ClientId,
    held: &mut HeldBuses,
    bus: BusId,
) -> (r: bool)
    ensures
        final(held)@ == old(held)@.remove(bus),
        r == (old(held)@.contains(bus) && held_by(old(locks)@, bus, *client)),
        r ==> final(locks)@ == old(locks)@.remove(bus) && closed_after(
            *old(handles),
            *final(handles),
            bus,
        ),
        !r ==> final(locks)@ == old(locks)@ && same_handles(*old(handles), *final(handles)),
{
    if !held.remove(bus) {
        return false;
    }
    if locks.holder(bus) == Some(*client) {
        handles.close(bus);
        locks.release(bus, *client)
    } else {
        false
    }
}

/// The buses that a disconnect cleanup gives back: those the connection
/// tracked and the lock table shows as held by its client.
pub open spec fn released_on_disconnect(
    held: Set<BusId>,
    locks: Map<BusId, ClientId>,
    client: ClientId,
) -> Set<BusId> {
    Set::new(|b: BusId| held.contains(b) && held_by(locks, b, client))
}

/// `new` is `old` without the handles of the buses in `gone`.
pub open spec fn closed_all<I, S, U>(
    old: PeripheralHandles<I, S, U>,
    new: PeripheralHandles<I, S, U>,
    gone: Set<BusId>,
) -> bool {
    &&& new.i2c_view() == old.i2c_view().remove_keys(
        Set::new(|b: u8| gone.contains(BusId::I2c(b))),
    )
    &&& new.spi_view() == old.spi_view().remove_keys(
        Set::new(|k: (u8, u8)| gone.contains(BusId::Spi(k.0, k.1))),
    )
    &&& new.uart_view() == old.uart_view().remove_keys(
        Set::new(|p: u8| gone.contains(BusId::Uart(p))),
    )
}

/// The cleanup after a connection ends, however it ended: every bus the
/// connection tracked is given back through `release_owned_bus`, so that the
/// client's locks and cached handles do not outlive the connection. Locks
/// and handles of other clients stay as they were.
pub fn release_all_held<I, S, U>(
    locks: &mut LockTable,
    handles: &mut PeripheralHandles<I, S, U>,
    client: &ClientId,
    held: &mut HeldBuses,
)
    ensures
        final(held)@ == Set::<BusId>::empty(),
        final(locks)@ == old(locks)@.remove_keys(
            released_on_disconnect(old(held)@, old(locks)@, *client),
        ),
        closed_all(
            *old(handles),
            *final(handles),
            released_on_disconnect(old(held)@, old(locks)@, *client),
        ),
{
    let ghost gone = released_on_disconnect(old(held)@, old(locks)@, *client);
    let ghost locks0 = old(locks)@;
    let ghost held0 = old(held)@;
    let ghost handles0 = *old(handles);
    let list = held.to_vec();
    proof {
        let none = gone.intersect(list@.take(0).to_set());
        assert(none =~= Set::<BusId>::empty());
        assert(held0.difference(list@.take(0).to_set()) =~= held0);
        assert(locks0.remove_keys(none) =~= locks0);
        assert(handles0.i2c_view().remove_keys(Set::new(|b: u8| none.contains(BusId::I2c(b))))
            =~= handles0.i2c_view());
        assert(handles0.spi_view().remove_keys(
            Set::new(|k: (u8, u8)| none.contains(BusId::Spi(k.0, k.1))),
        ) =~= handles0.spi_view());
        assert(handles0.uart_view().remove_keys(Set::new(|p: u8| none.contains(BusId::Uart(p))))
            =~= handles0.uart_view());
    }
    let n = list.len();
    let mut i: usize = 0;
    while i < n
        invariant
            n == list@.len(),
            i <= n,
            forall|b: BusId| list@.contains(b) <==> held0.contains(b),
            gone == released_on_disconnect(held0, locks0, *client),
            held@ == held0.difference(list@.take(i as int).to_set()),
            locks@ == locks0.remove_keys(gone.intersect(list@.take(i as int).to_set())),
            closed_all(handles0, *handles, gone.intersect(list@.take(i as int).to_set())),
        decreases n - i,
    {
        let bus = list[i];
        let ghost done = list@.take(i as int).to_set();
        let ghost locks_before = locks@;
        let ghost handles_before = *handles;
        let released = release_owned_bus(locks, handles, client, held, bus);
        proof {
            assert(list@.take(i + 1) =~= list@.take(i as int).push(bus));
            assert forall|b: BusId| #[trigger] list@.take(i + 1).to_set().contains(b) <==> (
            done.contains(b) || b == bus) by {
                lemma_push_contains(list@.take(i as int), bus, b);
            }
            let done2 = list@.take(i + 1).to_set();
            assert(done2 =~= done.insert(bus));
            assert(held@ =~= held0.difference(done2));
            if held0.contains(bus) && !done.contains(bus) && held_by(locks0, bus, *client) {
                assert(gone.contains(bus));
                assert(locks@ =~= locks0.remove_keys(gone.intersect(done2)));
            } else {
                assert(gone.intersect(done2) =~= gone.intersect(done) || done.contains(bus));
                assert(locks@ =~= locks0.remove_keys(gone.intersect(done2)));
            }
            lemma_closed_all_step(
                handles0,
                handles_before,
                *handles,
                gone.intersect(done),
                bus,
                released,
            );
            if released {
                assert(gone.intersect(done2) =~= gone.intersect(done).insert(bus));
            } else {
                assert(gone.intersect(done2) =~= gone.intersect(done));
            }
        }
        i = i + 1;
    }
    proof {
        assert(list@.take(n as int) =~= list@);
        assert(held@ =~= Set::<BusId>::empty());
        assert(gone.intersect(list@.to_set()) =~= gone);
    }
}

/// The pull mode of a wire pull setting.
pub open spec fn pull_mode_of(pull: PullWire) -> PullMode {
    match pull {
        PullWire::NoPull => PullMode::NoPull,
        PullWire::Up => PullMode::Up,
        PullWire::Down => PullMode::Down,
    }
}

/// Converts a wire pull setting to the hardware's pull mode.
pub fn pull_mode_from_wire(pull: PullWire) -> (r: PullMode)
    ensures
        r == pull_mode_of(pull),
{
    match pull {
        PullWire::NoPull => PullMode::NoPull,
        PullWire::Up => PullMode::Up,
        PullWire::Down => PullMode::Down,
    }
}

/// A hardware operation that a request asks for once its bus is held.
pub enum HardwareCall {
    GpioRead { pin: u32, pull: PullMode },
    GpioWrite { pin: u32, value: bool },
    GpioWatchEdges {
        pin: u32,
        pre_pulse_low_ms: Option<u64>,
        max_events: usize,
        timeout_ms: u64,
        pull: PullMode,
    },
    GpioWatchEdgesPolled {
        pin: u32,
        pre_pulse_low_ms: Option<u64>,
        budget_ms: u64,
        idle_timeout_us: u64,
        glitch_filter_us: u64,
        pull: PullMode,
    },
    I2cRead { bus: u8, addr: u8, length: usize },
    I2cWrite { bus: u8, addr: u8, data: Vec<u8> },
    I2cWriteRead { bus: u8, addr: u8, data: Vec<u8>, length: usize },
    SpiTransfer { bus: u8, chip_select: u8, data: Vec<u8> },
    UartRead { port: u8, baud_rate: u32, length: usize },
    UartWrite { port: u8, baud_rate: u32, data: Vec<u8> },
}

/// The hardware operation of a valid request other than Release.
pub open spec fn hardware_call(req: Request) -> HardwareCall {
    match (req.bus, req.op) {
        (BusRef::Gpio { pin }, Operation::Read { pull }) => HardwareCall::GpioRead {
            pin,
            pull: pull_mode_of(pull),
        },
        (BusRef::Gpio { pin }, Operation::Write { value }) => HardwareCall::GpioWrite { pin, value },
        (
            BusRef::Gpio { pin },
            Operation::WatchEdges { pre_pulse_low_ms, max_events, timeout_ms, pull },
        ) => HardwareCall::GpioWatchEdges {
            pin,
            pre_pulse_low_ms,
            max_events,
            timeout_ms,
            pull: pull_mode_of(pull),
        },
        (
            BusRef::Gpio { pin },
            Operation::WatchEdgesPolled {
                pre_pulse_low_ms,
                budget_ms,
                idle_timeout_us,
                glitch_filter_us,
                pull,
            },
        ) => HardwareCall::GpioWatchEdgesPolled {
            pin,
            pre_pulse_low_ms,
            budget_ms,
            idle_timeout_us,
            glitch_filter_us,
            pull: pull_mode_of(pull),
        },
        (BusRef::I2c { bus, addr }, Operation::ReadBytes { length }) => HardwareCall::I2cRead {
            bus,
            addr,
            length,
        },
        (BusRef::I2c { bus, addr }, Operation::WriteBytes { data }) => HardwareCall::I2cWrite {
            bus,
            addr,
            data,
        },
        (
            BusRef::I2c { bus, addr },
            Operation::WriteReadBytes { data, length },
        ) => HardwareCall::I2cWriteRead { bus, addr, data, length },
        (BusRef::Spi { bus, chip_select }, Operation::Transfer { data }) => HardwareCall::SpiTransfer {
            bus,
            chip_select,
            data,
        },
        (BusRef::Uart { port, baud_rate }, Operation::ReadBytes { length }) => HardwareCall::UartRead {
            port,
            baud_rate,
            length,
        },
        (BusRef::Uart { port, baud_rate }, Operation::WriteBytes { data }) => HardwareCall::UartWrite {
            port,
            baud_rate,
            data,
        },
        _ => arbitrary(),
    }
}

/// The pull setting of a request reaches the hardware as the same pull: no
/// pull stays off, up pulls up, down pulls down.
pub proof fn lemma_pull_setting_is_kept(pull: PullWire)
    ensures
        pull == PullWire::NoPull <==> pull_mode_of(pull) == PullMode::NoPull,
        pull == PullWire::Up <==> pull_mode_of(pull) == PullMode::Up,
        pull == PullWire::Down <==> pull_mode_of(pull) == PullMode::Down,
{
}

/// A GPIO request reaches the hardware on the pin it names, with its own
/// settings: a read with its pull, a write with its level (true drives the
/// pin high), and both watches with their start pulse, limits and pull.
pub proof fn lemma_gpio_requests_keep_their_settings(pin: u32, op: Operation)
    ensures
        op matches Operation::Read { pull } ==> hardware_call(Request { bus: BusRef::Gpio { pin }, op })
            == (HardwareCall::GpioRead { pin, pull: pull_mode_of(pull) }),
        op matches Operation::Write { value } ==> hardware_call(Request { bus: BusRef::Gpio { pin }, op })
            == (HardwareCall::GpioWrite { pin, value }),
        op matches Operation::WatchEdges { pre_pulse_low_ms, max_events, timeout_ms, pull }
            ==> hardware_call(Request { bus: BusRef::Gpio { pin }, op }) == (HardwareCall::GpioWatchEdges {
            pin,
            pre_pulse_low_ms,
            max_events,
            timeout_ms,
            pull: pull_mode_of(pull),
        }),
        op matches Operation::WatchEdgesPolled {
            pre_pulse_low_ms,
            budget_ms,
            idle_timeout_us,
            glitch_filter_us,
            pull,
        } ==> hardware_call(Request { bus: BusRef::Gpio { pin }, op }) == (HardwareCall::GpioWatchEdgesPolled {
            pin,
            pre_pulse_low_ms,
            budget_ms,
            idle_timeout_us,
            glitch_filter_us,
            pull: pull_mode_of(pull),
        }),
{
}

/// An I2C request reaches the device it names: the bus number of the
/// request is the bus, its device address is the address, and its bytes and
/// length are passed on unchanged.
pub proof fn lemma_i2c_requests_reach_their_device(bus: u8, addr: u8, op: Operation)
    ensures
        op matches Operation::ReadBytes { length } ==> hardware_call(Request { bus: BusRef::I2c { bus, addr }, op })
            == (HardwareCall::I2cRead { bus, addr, length }),
        op matches Operation::WriteBytes { data } ==> hardware_call(Request { bus: BusRef::I2c { bus, addr }, op })
            == (HardwareCall::I2cWrite { bus, addr, data }),
        op matches Operation::WriteReadBytes { data, length } ==> hardware_call(
            Request { bus: BusRef::I2c { bus, addr }, op },
        ) == (HardwareCall::I2cWriteRead { bus, addr, data, length }),
{
}

/// An SPI transfer goes to the bus and chip select of the request, with its
/// bytes unchanged.
pub proof fn lemma_spi_requests_reach_their_device(bus: u8, chip_select: u8, data: Vec<u8>)
    ensures
        hardware_call(
            Request { bus: BusRef::Spi { bus, chip_select }, op: Operation::Transfer { data } },
        ) == (HardwareCall::SpiTransfer { bus, chip_select, data }),
{
}

/// A UART request goes to the port of the request at its baud rate, with
/// its length or bytes unchanged.
pub proof fn lemma_uart_requests_reach_their_port(port: u8, baud_rate: u32, op: Operation)
    ensures
        op matches Operation::ReadBytes { length } ==> hardware_call(
            Request { bus: BusRef::Uart { port, baud_rate }, op },
        ) == (HardwareCall::UartRead { port, baud_rate, length }),
        op matches Operation::WriteBytes { data } ==> hardware_call(
            Request { bus: BusRef::Uart { port, baud_rate }, op },
        ) == (HardwareCall::UartWrite { port, baud_rate, data }),
{
}

/// What the daemon does with a request: answer at once, or perform a
/// hardware operation on a bus that the connection now holds.
pub enum DispatchStep {
    Reply(Response),
    Perform(HardwareCall),
}

/// The effect of giving `bus` back for `client` when the connection's set
/// held it (`in_set`): lock and handle go exactly when the lock table
/// shows `client` as the holder.
pub open spec fn release_effect<I, S, U>(
    in_set: bool,
    old_locks: Map<BusId, ClientId>,
    new_locks: Map<BusId, ClientId>,
    old_handles: PeripheralHandles<I, S, U>,
    new_handles: PeripheralHandles<I, S, U>,
    client: ClientId,
    bus: BusId,
) -> bool {
    if in_set && held_by(old_locks, bus, client) {
        new_locks == old_locks.remove(bus) && closed_after(old_handles, new_handles, bus)
    } else {
        new_locks == old_locks && same_handles(old_handles, new_handles)
    }
}

/// Decides what `request` does for `client`. An invalid request is answered
/// `malformed_request` before any lock is taken. Release gives the bus back
/// (see `release_owned_bus`) and is answered ok. Any other request takes its
/// bus unless the connection already holds it; when another client holds
/// the bus the answer is `locked_by` with that client, and nothing changes.
pub fn dispatch<I, S, U>(
    request: Request,
    client: &ClientId,
    locks: &mut LockTable,
    handles: &mut PeripheralHandles<I, S, U>,
    held: &mut HeldBuses,
) -> (step: DispatchStep)
    ensures
        !request_valid(request) ==> (step matches DispatchStep::Reply(r) && is_failure(
            r,
            "malformed_request:"@ + violation_text(request),
        )) && final(locks)@ == old(locks)@ && final(held)@ == old(held)@ && same_handles(
            *old(handles),
            *final(handles),
        ),
        request_valid(request) && request.op is Release ==> (step matches DispatchStep::Reply(r)
            && r.ok && r.error is None && r.value is None && r.bytes is None && r.edges is None)
            && final(held)@ == old(held)@.remove(bus_id_of(request.bus)) && release_effect(
            old(held)@.contains(bus_id_of(request.bus)),
            old(locks)@,
            final(locks)@,
            *old(handles),
            *final(handles),
            *client,
            bus_id_of(request.bus),
        ),
        request_valid(request) && !(request.op is Release) && old(held)@.contains(
            bus_id_of(request.bus),
        ) ==> step == DispatchStep::Perform(hardware_call(request)) && final(locks)@ == old(
            locks,
        )@ && final(held)@ == old(held)@ && same_handles(*old(handles), *final(handles)),
        request_valid(request) && !(request.op is Release) && !old(held)@.contains(
            bus_id_of(request.bus),
        ) && may_take(old(locks)@, bus_id_of(request.bus), *client) ==> step
            == DispatchStep::Perform(hardware_call(request)) && final(locks)@ == old(
            locks,
        )@.insert(bus_id_of(request.bus), *client) && final(held)@ == old(held)@.insert(
            bus_id_of(request.bus),
        ) && same_handles(*old(handles), *final(handles)),
        request_valid(request) && !(request.op is Release) && !old(held)@.contains(
            bus_id_of(request.bus),
        ) && !may_take(old(locks)@, bus_id_of(request.bus), *client) ==> (step matches DispatchStep::Reply(r)
            && is_failure(r, "locked_by:"@ + client_text(old(locks)@[bus_id_of(request.bus)])))
            && final(locks)@ == old(locks)@ && final(held)@ == old(held)@ && same_handles(
            *old(handles),
            *final(handles),
        ),
{
    match request.validate() {
        Err(error) => {
            return DispatchStep::Reply(Response::malformed(error.as_str()));
        },
        Ok(()) => {},
    }
    let bus = request.bus.bus_id();
    if let Operation::Release = request.op {
        release_owned_bus(locks, handles, client, held, bus);
        return DispatchStep::Reply(Response::ok());
    }
    if !held.contains(bus) {
        match locks.try_acquire(bus, *client) {
            Ok(()) => {
                held.insert(bus);
            },
            Err(holder) => {
                let text = holder.describe();
                return DispatchStep::Reply(Response::locked_by(text.as_str()));
            },
        }
    }
    let Request { bus: bus_ref, op } = request;
    let call = match (bus_ref, op) {
        (BusRef::Gpio { pin }, Operation::Read { pull }) => HardwareCall::GpioRead {
            pin,
            pull: pull_mode_from_wire(pull),
        },
        (BusRef::Gpio { pin }, Operation::Write { value }) => HardwareCall::GpioWrite { pin, value },
        (
            BusRef::Gpio { pin },
            Operation::WatchEdges { pre_pulse_low_ms, max_events, timeout_ms, pull },
        ) => HardwareCall::GpioWatchEdges {
            pin,
            pre_pulse_low_ms,
            max_events,
            timeout_ms,
            pull: pull_mode_from_wire(pull),
        },
        (
            BusRef::Gpio { pin },
            Operation::WatchEdgesPolled {
                pre_pulse_low_ms,
                budget_ms,
                idle_timeout_us,
                glitch_filter_us,
                pull,
            },
        ) => HardwareCall::GpioWatchEdgesPolled {
            pin,
            pre_pulse_low_ms,
            budget_ms,
            idle_timeout_us,
            glitch_filter_us,
            pull: pull_mode_from_wire(pull),
        },
        (BusRef::I2c { bus, addr }, Operation::ReadBytes { length }) => HardwareCall::I2cRead {
            bus,
            addr,
            length,
        },
        (BusRef::I2c { bus, addr }, Operation::WriteBytes { data }) => HardwareCall::I2cWrite {
            bus,
            addr,
            data,
        },
        (
            BusRef::I2c { bus, addr },
            Operation::WriteReadBytes { data, length },
        ) => HardwareCall::I2cWriteRead { bus, addr, data, length },
        (BusRef::Spi { bus, chip_select }, Operation::Transfer { data }) => HardwareCall::SpiTransfer {
            bus,
            chip_select,
            data,
        },
        (BusRef::Uart { port, baud_rate }, Operation::ReadBytes { length }) => HardwareCall::UartRead {
            port,
            baud_rate,
            length,
        },
        (BusRef::Uart { port, baud_rate }, Operation::WriteBytes { data }) => HardwareCall::UartWrite {
            port,
            baud_rate,
            data,
        },
        _ => {
            // validation admits no other pairing of bus and operation
            assert(false);
            return DispatchStep::Reply(Response::ok());
        },
    };
    DispatchStep::Perform(call)
}

/// After a disconnect cleanup, the client holds none of the buses its
/// connection tracked, every such bus may be taken by any client, and a bus
/// held by another client is still held by it.
pub proof fn lemma_cleanup_frees_the_client_buses(
    held: Set<BusId>,
    locks: Map<BusId, ClientId>,
    client: ClientId,
    bus: BusId,
    next: ClientId,
)
    ensures
        ({
            let after = locks.remove_keys(released_on_disconnect(held, locks, client));
            &&& held.contains(bus) ==> !held_by(after, bus, client)
            &&& held.contains(bus) && held_by(locks, bus, client) ==> may_take(after, bus, next)
            &&& locks.contains_key(bus) && locks[bus] != client ==> held_by(after, bus, locks[bus])
        }),
{
}

proof fn lemma_closed_all_step<I, S, U>(
    h0: PeripheralHandles<I, S, U>,
    hb: PeripheralHandles<I, S, U>,
    h: PeripheralHandles<I, S, U>,
    done: Set<BusId>,
    bus: BusId,
    released: bool,
)
    requires
        closed_all(h0, hb, done),
        released ==> closed_after(hb, h, bus),
        !released ==> same_handles(hb, h),
    ensures
        closed_all(h0, h, if released { done.insert(bus) } else { done }),
{
    if released {
        let d2 = done.insert(bus);
        assert(h.i2c_view() =~= h0.i2c_view().remove_keys(
            Set::new(|b: u8| d2.contains(BusId::I2c(b))),
        ));
        assert(h.spi_view() =~= h0.spi_view().remove_keys(
            Set::new(|k: (u8, u8)| d2.contains(BusId::Spi(k.0, k.1))),
        ));
        assert(h.uart_view() =~= h0.uart_view().remove_keys(
            Set::new(|p: u8| d2.contains(BusId::Uart(p))),
        ));
    }
}

/// A sequence with one more element holds exactly that element besides
/// what it held.
pub proof fn lemma_push_contains<A>(s: Seq<A>, x: A, b: A)
    ensures
        s.push(x).contains(b) <==> (s.contains(b) || x == b),
{
    assert(s.push(x)[s.len() as int] == x);
    if s.contains(b) {
        let j = choose|j: int| 0 <= j < s.len() && s[j] == b;
        assert(s.push(x)[j] == b);
    }
    if s.push(x).contains(b) {
        let j = choose|j: int| 0 <= j < s.push(x).len() && s.push(x)[j] == b;
        if j < s.len() {
            assert(s[j] == b);
        }
    }
}

} // verus!
