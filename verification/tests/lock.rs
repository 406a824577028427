use pi4gpio::client::ClientId;
use pi4gpio::lock::{key_of, BusId, LockTable};

fn client(pid: u32) -> ClientId {
    ClientId::Local {
        uid: 1000,
        pid,
        session_id: pid as u64,
    }
}

fn session(pid: u32, session_id: u64) -> ClientId {
    ClientId::Local {
        uid: 1000,
        pid,
        session_id,
    }
}

#[test]
fn same_client_can_reacquire_a_bus() {
    let mut locks = LockTable::new();
    let owner = client(10);
    let bus = BusId::Uart(0);

    assert_eq!(locks.try_acquire(bus, owner.clone()), Ok(()));
    assert_eq!(locks.try_acquire(bus, owner), Ok(()));
}

#[test]
fn another_client_cannot_take_a_held_bus() {
    let mut locks = LockTable::new();
    let owner = client(10);
    let contender = client(20);
    let bus = BusId::I2c(1);

    assert_eq!(locks.try_acquire(bus, owner.clone()), Ok(()));
    assert_eq!(locks.try_acquire(bus, contender), Err(owner));
}

#[test]
fn non_owner_release_does_not_unlock_the_bus() {
    let mut locks = LockTable::new();
    let owner = client(10);
    let contender = client(20);
    let bus = BusId::Gpio(17);

    assert_eq!(locks.try_acquire(bus, owner.clone()), Ok(()));
    assert!(!locks.release_with(bus, &contender, || {}));
    assert_eq!(locks.try_acquire(bus, contender), Err(owner));
}

#[test]
fn reconnect_from_same_process_is_a_distinct_lock_owner() {
    let mut locks = LockTable::new();
    let old_session = session(10, 1);
    let new_session = session(10, 2);
    let bus = BusId::Uart(0);

    assert_eq!(locks.try_acquire(bus, old_session.clone()), Ok(()));
    assert_eq!(
        locks.try_acquire(bus, new_session),
        Err(old_session.clone())
    );
    assert!(locks.release_with(bus, &old_session, || {}));
}

#[test]
fn non_owner_release_does_not_run_cleanup() {
    let mut locks = LockTable::new();
    let owner = client(10);
    let contender = client(20);
    let bus = BusId::I2c(1);
    let mut cleanup_ran = false;

    assert_eq!(locks.try_acquire(bus, owner.clone()), Ok(()));
    assert!(!locks.release_with(bus, &contender, || cleanup_ran = true));
    assert!(!cleanup_ran);
    assert_eq!(locks.try_acquire(bus, contender), Err(owner));
}

#[test]
fn disconnect_cleanup_releases_every_bus_owned_by_the_client() {
    let mut locks = LockTable::new();
    let disconnected = client(10);
    let next_client = client(20);
    let held = [BusId::Gpio(6), BusId::Spi(0, 0), BusId::Uart(0)];

    for bus in held {
        assert_eq!(locks.try_acquire(bus, disconnected.clone()), Ok(()));
    }
    for bus in held {
        assert!(locks.release_with(bus, &disconnected, || {}));
    }
    for bus in held {
        assert_eq!(locks.try_acquire(bus, next_client.clone()), Ok(()));
    }
}

#[test]
fn owner_release_runs_cleanup_once() {
    let mut locks = LockTable::new();
    let owner = client(10);
    let bus = BusId::Spi(0, 1);
    let mut runs = 0;

    assert_eq!(locks.try_acquire(bus, owner), Ok(()));
    assert!(locks.release_with(bus, &owner, || runs += 1));
    assert_eq!(runs, 1);
    assert_eq!(locks.holder(bus), None);
    assert!(!locks.release_with(bus, &owner, || runs += 1));
    assert_eq!(runs, 1);
}

#[test]
fn release_then_reacquire_by_other_client() {
    let mut locks = LockTable::new();
    let owner = client(10);
    let next = client(20);
    let bus = BusId::Gpio(4);

    assert_eq!(locks.try_acquire(bus, owner), Ok(()));
    assert!(!locks.release(bus, next));
    assert_eq!(locks.holder(bus), Some(owner));
    assert!(locks.release(bus, owner));
    assert_eq!(locks.holder(bus), None);
    assert_eq!(locks.try_acquire(bus, next), Ok(()));
    assert_eq!(locks.holder(bus), Some(next));
}

#[test]
fn different_buses_are_independent() {
    let mut locks = LockTable::new();
    let a = client(10);
    let b = client(20);

    assert_eq!(locks.try_acquire(BusId::Spi(0, 0), a), Ok(()));
    assert_eq!(locks.try_acquire(BusId::Spi(0, 1), b), Ok(()));
    assert_eq!(locks.try_acquire(BusId::Gpio(1), a), Ok(()));
    assert_eq!(locks.try_acquire(BusId::I2c(1), b), Ok(()));
    assert_eq!(locks.try_acquire(BusId::Uart(1), a), Ok(()));
    assert_eq!(locks.try_acquire(BusId::Gpio(1), b), Err(a));
    assert_eq!(locks.try_acquire(BusId::Spi(0, 1), a), Err(b));
}

#[test]
fn bus_keys_are_distinct() {
    let buses = [
        BusId::Gpio(0),
        BusId::Gpio(57),
        BusId::Gpio(u32::MAX),
        BusId::I2c(0),
        BusId::I2c(255),
        BusId::Spi(0, 0),
        BusId::Spi(0, 1),
        BusId::Spi(1, 0),
        BusId::Spi(255, 255),
        BusId::Uart(0),
        BusId::Uart(255),
    ];
    for (i, a) in buses.iter().enumerate() {
        for (j, b) in buses.iter().enumerate() {
            assert_eq!(key_of(*a) == key_of(*b), i == j);
        }
    }
    assert_eq!(key_of(BusId::Spi(1, 2)), 0x2_0000_0000 + 258);
    assert_eq!(key_of(BusId::Gpio(17)), 17);
}

#[test]
fn owner_keeps_bus_through_other_clients_calls() {
    let mut locks = LockTable::new();
    let owner = client(10);
    let other = client(20);
    let third = client(30);
    let bus = BusId::I2c(1);

    assert_eq!(locks.try_acquire(bus, owner), Ok(()));
    assert_eq!(locks.try_acquire(BusId::I2c(0), other), Ok(()));
    assert!(!locks.release(bus, other));
    assert_eq!(locks.try_acquire(bus, third), Err(owner));
    assert!(locks.release(BusId::I2c(0), other));
    assert!(!locks.release_with(bus, &third, || {}));
    assert_eq!(locks.try_acquire(bus, owner), Ok(()));
    assert_eq!(locks.try_acquire(bus, other), Err(owner));
    assert_eq!(locks.holder(bus), Some(owner));
    assert!(locks.release(bus, owner));
    assert_eq!(locks.try_acquire(bus, other), Ok(()));
}
