use pi4gpio::client::ClientId;
use pi4gpio::edges::{PolledEdgeFilter, PolledWatch};
use pi4gpio::hw::{Level, PullMode};
use pi4gpio::lock::{BusId, LockTable};
use pi4gpio::protocol::{BusRef, EdgeEventWire, Operation, PullWire, Request};
use pi4gpio::session::{
    dispatch, pull_mode_from_wire, release_all_held, release_owned_bus, DispatchStep,
    HardwareCall, HeldBuses, PeripheralHandles,
};
use std::sync::atomic::{AtomicUsize, Ordering};
use std::sync::Arc;

struct DropProbe(Arc<AtomicUsize>);

impl Drop for DropProbe {
    fn drop(&mut self) {
        self.0.fetch_add(1, Ordering::SeqCst);
    }
}

fn client(pid: u32, session_id: u64) -> ClientId {
    ClientId::Local {
        uid: 1000,
        pid,
        session_id,
    }
}

fn held_of(buses: &[BusId]) -> HeldBuses {
    let mut held = HeldBuses::new();
    for bus in buses {
        held.insert(*bus);
    }
    held
}

#[test]
fn explicit_release_drops_handle_before_next_owner_acquires() {
    let mut locks = LockTable::new();
    let mut handles: PeripheralHandles<DropProbe, DropProbe, DropProbe> =
        PeripheralHandles::default();
    let drops = Arc::new(AtomicUsize::new(0));
    let owner = client(10, 1);
    let next = client(20, 2);
    let bus = BusId::I2c(1);
    let mut held = held_of(&[bus]);

    handles.put_i2c(1, DropProbe(Arc::clone(&drops)));
    assert_eq!(locks.try_acquire(bus, owner.clone()), Ok(()));
    assert!(release_owned_bus(&mut locks, &mut handles, &owner, &mut held, bus));

    assert_eq!(drops.load(Ordering::SeqCst), 1);
    assert!(held.is_empty());
    assert!(handles.i2c_is_empty());
    assert_eq!(locks.try_acquire(bus, next), Ok(()));
}

#[test]
fn disconnect_cleanup_drops_all_cached_bus_handles() {
    let mut locks = LockTable::new();
    let mut handles: PeripheralHandles<DropProbe, DropProbe, DropProbe> =
        PeripheralHandles::default();
    let drops = Arc::new(AtomicUsize::new(0));
    let owner = client(10, 1);
    let buses = [BusId::I2c(1), BusId::Spi(0, 0), BusId::Uart(0)];
    let mut held = held_of(&buses);

    handles.put_i2c(1, DropProbe(Arc::clone(&drops)));
    handles.put_spi(0, 0, DropProbe(Arc::clone(&drops)));
    handles.put_uart(0, DropProbe(Arc::clone(&drops)));
    for bus in buses {
        assert_eq!(locks.try_acquire(bus, owner.clone()), Ok(()));
    }

    for bus in buses {
        assert!(release_owned_bus(&mut locks, &mut handles, &owner, &mut held, bus));
    }

    assert_eq!(drops.load(Ordering::SeqCst), 3);
    assert!(held.is_empty());
    assert!(handles.i2c_is_empty());
    assert!(handles.spi_is_empty());
    assert!(handles.uart_is_empty());
}

#[test]
fn non_owner_release_cannot_drop_cached_handle() {
    let mut locks = LockTable::new();
    let mut handles: PeripheralHandles<DropProbe, DropProbe, DropProbe> =
        PeripheralHandles::default();
    let drops = Arc::new(AtomicUsize::new(0));
    let owner = client(10, 1);
    let contender = client(20, 2);
    let bus = BusId::Uart(0);
    // The contender's set claims the bus too; the lock table still decides.
    let mut contender_held = held_of(&[bus]);

    handles.put_uart(0, DropProbe(Arc::clone(&drops)));
    assert_eq!(locks.try_acquire(bus, owner.clone()), Ok(()));
    assert!(!release_owned_bus(
        &mut locks,
        &mut handles,
        &contender,
        &mut contender_held,
        bus,
    ));

    assert_eq!(drops.load(Ordering::SeqCst), 0);
    assert!(handles.has(BusId::Uart(0)));
    assert_eq!(locks.try_acquire(bus, contender), Err(owner));
}

#[test]
fn polled_edge_filter_rejects_short_glitch_and_preserves_edge_timestamp() {
    let start: u64 = 5_000_000_000;
    let us: u64 = 1_000;
    let mut filter = PolledEdgeFilter::new(10 * us);

    assert!(filter.observe(Level::Low, start, 100).is_none());
    assert!(filter.observe(Level::High, start + us, 200).is_none());
    assert!(filter.observe(Level::Low, start + 5 * us, 300).is_none());

    assert!(filter.observe(Level::High, start + 20 * us, 400).is_none());
    let edge = filter
        .observe(Level::High, start + 31 * us, 500)
        .expect("stable edge");
    assert_eq!(edge.timestamp_ns, 400);
    assert!(edge.rising);
}

#[test]
fn unfiltered_changes_are_edges_at_once() {
    let mut filter = PolledEdgeFilter::new(0);
    assert!(filter.observe(Level::High, 10, 1).is_none());
    assert!(filter.observe(Level::High, 11, 2).is_none());
    assert_eq!(
        filter.observe(Level::Low, 12, 3),
        Some(EdgeEventWire { timestamp_ns: 3, rising: false })
    );
    assert_eq!(
        filter.observe(Level::High, 13, 4),
        Some(EdgeEventWire { timestamp_ns: 4, rising: true })
    );
}

#[test]
fn filter_with_clock_going_backwards_waits() {
    let mut filter = PolledEdgeFilter::new(5);
    assert!(filter.observe(Level::Low, 100, 1).is_none());
    assert!(filter.observe(Level::High, 100, 2).is_none());
    assert!(filter.observe(Level::High, 50, 3).is_none());
    assert_eq!(
        filter.observe(Level::High, 105, 4),
        Some(EdgeEventWire { timestamp_ns: 2, rising: true })
    );
}

#[test]
fn polled_watch_ends_on_budget_or_idle_and_records_alternating_edges() {
    let mut watch = PolledWatch::start(1_000, 1, 10, 0);
    assert!(!watch.finished(1_000));
    watch.sample(Level::Low, 1_000, 7, 1_000);
    assert!(watch.finished(11_000));
    watch.sample(Level::High, 5_000, 8, 5_000);
    assert!(!watch.finished(11_000));
    assert!(watch.finished(15_000));
    watch.sample(Level::Low, 6_000, 9, 6_000);
    assert!(!watch.finished(15_999));
    assert!(watch.finished(1_001_000));
    let events = watch.into_events();
    assert_eq!(
        events,
        vec![
            EdgeEventWire { timestamp_ns: 8, rising: true },
            EdgeEventWire { timestamp_ns: 9, rising: false },
        ]
    );
}

#[test]
fn pull_setting_conversion() {
    assert_eq!(pull_mode_from_wire(PullWire::NoPull), PullMode::NoPull);
    assert_eq!(pull_mode_from_wire(PullWire::Up), PullMode::Up);
    assert_eq!(pull_mode_from_wire(PullWire::Down), PullMode::Down);
}

#[test]
fn held_buses_behave_as_a_set() {
    let mut held = HeldBuses::new();
    assert!(held.is_empty());
    held.insert(BusId::Gpio(1));
    held.insert(BusId::Gpio(1));
    held.insert(BusId::Spi(0, 1));
    assert!(held.contains(BusId::Gpio(1)));
    assert!(!held.contains(BusId::Spi(1, 0)));
    assert_eq!(held.to_vec().len(), 2);
    assert!(held.remove(BusId::Gpio(1)));
    assert!(!held.remove(BusId::Gpio(1)));
    assert!(!held.contains(BusId::Gpio(1)));
    assert!(held.remove(BusId::Spi(0, 1)));
    assert!(held.is_empty());
}

#[test]
fn gpio_bus_has_no_cached_handle_to_close() {
    let mut handles: PeripheralHandles<u8, u8, u8> = PeripheralHandles::new();
    handles.put_i2c(3, 30);
    assert!(!handles.close(BusId::Gpio(3)));
    assert!(handles.has(BusId::I2c(3)));
    assert!(!handles.close(BusId::I2c(4)));
    assert_eq!(handles.take_i2c(3), Some(30));
    assert_eq!(handles.take_i2c(3), None);
    handles.put_spi(1, 2, 12);
    assert!(!handles.has(BusId::Spi(2, 1)));
    assert_eq!(handles.take_spi(1, 2), Some(12));
    handles.put_uart(5, 50);
    assert!(handles.close(BusId::Uart(5)));
    assert!(handles.uart_is_empty());
}

#[test]
fn cleanup_releases_only_the_client_locks() {
    let mut locks = LockTable::new();
    let mut handles: PeripheralHandles<u8, u8, u8> = PeripheralHandles::new();
    let gone = client(10, 1);
    let other = client(20, 2);
    assert_eq!(locks.try_acquire(BusId::I2c(1), gone), Ok(()));
    assert_eq!(locks.try_acquire(BusId::Uart(0), gone), Ok(()));
    assert_eq!(locks.try_acquire(BusId::Spi(0, 0), other), Ok(()));
    handles.put_i2c(1, 1);
    handles.put_uart(0, 2);
    handles.put_spi(0, 0, 3);
    // The set also names a bus that another client holds.
    let mut held = held_of(&[BusId::I2c(1), BusId::Uart(0), BusId::Spi(0, 0)]);

    release_all_held(&mut locks, &mut handles, &gone, &mut held);

    assert!(held.is_empty());
    assert_eq!(locks.holder(BusId::I2c(1)), None);
    assert_eq!(locks.holder(BusId::Uart(0)), None);
    assert_eq!(locks.holder(BusId::Spi(0, 0)), Some(other));
    assert!(handles.i2c_is_empty());
    assert!(handles.uart_is_empty());
    assert!(handles.has(BusId::Spi(0, 0)));
}

#[test]
fn dispatch_rejects_invalid_request_before_locking() {
    let mut locks = LockTable::new();
    let mut handles: PeripheralHandles<u8, u8, u8> = PeripheralHandles::new();
    let mut held = HeldBuses::new();
    let me = client(10, 1);
    let req = Request {
        bus: BusRef::I2c { bus: 1, addr: 118 },
        op: Operation::Write { value: true },
    };
    match dispatch(req, &me, &mut locks, &mut handles, &mut held) {
        DispatchStep::Reply(r) => {
            assert!(!r.ok);
            assert_eq!(
                r.error.as_deref(),
                Some("malformed_request:指定バスではこの操作を使用できません")
            );
        }
        DispatchStep::Perform(_) => panic!("must be rejected"),
    }
    assert_eq!(locks.holder(BusId::I2c(1)), None);
    assert!(held.is_empty());
}

#[test]
fn dispatch_takes_the_bus_and_reports_the_holder_to_others() {
    let mut locks = LockTable::new();
    let mut handles: PeripheralHandles<u8, u8, u8> = PeripheralHandles::new();
    let mut mine = HeldBuses::new();
    let mut theirs = HeldBuses::new();
    let me = client(10, 1);
    let them = client(20, 2);

    let read = Request {
        bus: BusRef::I2c { bus: 1, addr: 0x76 },
        op: Operation::ReadBytes { length: 4 },
    };
    match dispatch(read, &me, &mut locks, &mut handles, &mut mine) {
        DispatchStep::Perform(HardwareCall::I2cRead { bus, addr, length }) => {
            assert_eq!((bus, addr, length), (1, 0x76, 4));
        }
        _ => panic!("must be performed"),
    }
    assert!(mine.contains(BusId::I2c(1)));
    assert_eq!(locks.holder(BusId::I2c(1)), Some(me));

    // Another device address on the same bus is the same lock.
    let write = Request {
        bus: BusRef::I2c { bus: 1, addr: 0x50 },
        op: Operation::WriteBytes { data: vec![1] },
    };
    match dispatch(write, &them, &mut locks, &mut handles, &mut theirs) {
        DispatchStep::Reply(r) => assert_eq!(
            r.error.as_deref(),
            Some("locked_by:Local { uid: 1000, pid: 10, session_id: 1 }")
        ),
        _ => panic!("must be refused"),
    }
    assert!(theirs.is_empty());

    let release = Request { bus: BusRef::I2c { bus: 1, addr: 0 }, op: Operation::Release };
    handles.put_i2c(1, 9);
    match dispatch(release, &me, &mut locks, &mut handles, &mut mine) {
        DispatchStep::Reply(r) => assert!(r.ok),
        _ => panic!("release is answered at once"),
    }
    assert!(handles.i2c_is_empty());
    assert_eq!(locks.holder(BusId::I2c(1)), None);

    let transfer = Request {
        bus: BusRef::Spi { bus: 0, chip_select: 1 },
        op: Operation::Transfer { data: vec![0xaa, 0x55] },
    };
    match dispatch(transfer, &them, &mut locks, &mut handles, &mut theirs) {
        DispatchStep::Perform(HardwareCall::SpiTransfer { bus, chip_select, data }) => {
            assert_eq!((bus, chip_select, data), (0, 1, vec![0xaa, 0x55]));
        }
        _ => panic!("must be performed"),
    }
    let polled = Request {
        bus: BusRef::Gpio { pin: 4 },
        op: Operation::watch_edges_polled(Some(18), 15, None, None, Some(PullWire::Up)),
    };
    match dispatch(polled, &them, &mut locks, &mut handles, &mut theirs) {
        DispatchStep::Perform(HardwareCall::GpioWatchEdgesPolled {
            pin,
            pre_pulse_low_ms,
            budget_ms,
            idle_timeout_us,
            glitch_filter_us,
            pull,
        }) => {
            assert_eq!((pin, pre_pulse_low_ms, budget_ms), (4, Some(18), 15));
            assert_eq!((idle_timeout_us, glitch_filter_us, pull), (300, 0, PullMode::Up));
        }
        _ => panic!("must be performed"),
    }
    assert!(theirs.contains(BusId::Gpio(4)));
}

#[test]
fn glitch_of_several_samples_is_rejected() {
    let mut filter = PolledEdgeFilter::new(10_000);
    assert!(filter.observe(Level::Low, 0, 1).is_none());
    for (k, t) in [100u64, 2_000, 5_000, 9_999].iter().enumerate() {
        assert!(filter.observe(Level::High, 1_000 + t, 10 + k as u64).is_none());
    }
    assert!(filter.observe(Level::Low, 20_000, 20).is_none());
    // A new change must last the filter time from its own first sample.
    assert!(filter.observe(Level::High, 30_000, 30).is_none());
    assert!(filter.observe(Level::High, 39_999, 31).is_none());
    assert_eq!(
        filter.observe(Level::High, 40_000, 32),
        Some(EdgeEventWire { timestamp_ns: 30, rising: true })
    );
}

#[test]
fn edges_of_a_fresh_filter_alternate_from_the_first_level() {
    let mut filter = PolledEdgeFilter::new(5);
    let samples = [
        (Level::High, 0u64, 100u64),
        (Level::High, 1, 101),
        (Level::Low, 2, 102),
        (Level::Low, 8, 103),
        (Level::High, 9, 104),
        (Level::High, 20, 105),
        (Level::Low, 21, 106),
        (Level::Low, 30, 107),
    ];
    let mut edges = Vec::new();
    for (i, (level, now, ts)) in samples.iter().enumerate() {
        let out = filter.observe(*level, *now, *ts);
        if i == 0 {
            assert!(out.is_none());
        }
        edges.extend(out);
    }
    assert_eq!(
        edges,
        vec![
            EdgeEventWire { timestamp_ns: 102, rising: false },
            EdgeEventWire { timestamp_ns: 104, rising: true },
            EdgeEventWire { timestamp_ns: 106, rising: false },
        ]
    );
}

#[test]
fn held_bus_list_has_no_repeats() {
    let mut held = HeldBuses::new();
    for bus in [BusId::Uart(0), BusId::Gpio(2), BusId::Uart(0), BusId::Spi(0, 0), BusId::Gpio(2)] {
        held.insert(bus);
    }
    let list = held.to_vec();
    assert_eq!(list.len(), 3);
    for (i, a) in list.iter().enumerate() {
        for b in &list[i + 1..] {
            assert_ne!(a, b);
        }
    }
    held.remove(BusId::Gpio(2));
    held.insert(BusId::Gpio(2));
    assert_eq!(held.to_vec().len(), 3);
}
