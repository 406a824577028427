use pi4gpio::lock::BusId;
use pi4gpio::protocol::{
    default_poll_idle_timeout_us, BusRef, EdgeEventWire, Operation, PullWire, Request, Response,
    DEFAULT_POLL_IDLE_TIMEOUT_US,
};

fn gpio17(op: Operation) -> Request {
    Request { bus: BusRef::Gpio { pin: 17 }, op }
}

fn error_of(req: &Request) -> String {
    req.validate().expect_err("request must be rejected")
}

#[test]
fn polled_watch_uses_backward_compatible_idle_timeout() {
    let parsed = gpio17(Operation::watch_edges_polled(None, 15, None, None, Some(PullWire::Up)));
    match &parsed.op {
        Operation::WatchEdgesPolled {
            idle_timeout_us,
            glitch_filter_us,
            ..
        } => {
            assert_eq!(*idle_timeout_us, DEFAULT_POLL_IDLE_TIMEOUT_US);
            assert_eq!(*glitch_filter_us, 0);
        }
        _ => panic!("wrong operation"),
    }
    assert!(parsed.validate().is_ok());
}

#[test]
fn client_can_override_polled_idle_timeout() {
    let parsed = gpio17(Operation::watch_edges_polled(None, 15, Some(2500), Some(10), None));
    assert!(parsed.validate().is_ok());
}

#[test]
fn incompatible_operation_is_rejected_before_dispatch() {
    let parsed = Request {
        bus: BusRef::I2c { bus: 1, addr: 118 },
        op: Operation::Write { value: true },
    };
    assert!(parsed.validate().is_err());
}

#[test]
fn unbounded_requests_are_rejected() {
    let huge_read = Request {
        bus: BusRef::Uart { port: 0, baud_rate: 9600 },
        op: Operation::ReadBytes { length: 1048577 },
    };
    assert!(huge_read.validate().is_err());

    let huge_wait = gpio17(Operation::watch_edges(None, 10, 60001, None));
    assert!(huge_wait.validate().is_err());
}

#[test]
fn defaults_of_omitted_fields() {
    assert_eq!(default_poll_idle_timeout_us(), 300);
    assert_eq!(PullWire::default(), PullWire::NoPull);
    match Operation::read(None) {
        Operation::Read { pull } => assert_eq!(pull, PullWire::NoPull),
        _ => panic!("wrong operation"),
    }
    match Operation::watch_edges(Some(18), 84, 100, Some(PullWire::Down)) {
        Operation::WatchEdges { pre_pulse_low_ms, max_events, timeout_ms, pull } => {
            assert_eq!(pre_pulse_low_ms, Some(18));
            assert_eq!(max_events, 84);
            assert_eq!(timeout_ms, 100);
            assert_eq!(pull, PullWire::Down);
        }
        _ => panic!("wrong operation"),
    }
}

#[test]
fn every_rule_has_its_message() {
    let incompatible = Request {
        bus: BusRef::Spi { bus: 0, chip_select: 0 },
        op: Operation::ReadBytes { length: 4 },
    };
    assert_eq!(error_of(&incompatible), "指定バスではこの操作を使用できません");

    let zero_read = Request {
        bus: BusRef::I2c { bus: 1, addr: 0x76 },
        op: Operation::ReadBytes { length: 0 },
    };
    assert_eq!(error_of(&zero_read), "lengthは1..=1048576 bytesで指定してください");

    let empty_write = Request {
        bus: BusRef::Uart { port: 0, baud_rate: 9600 },
        op: Operation::WriteBytes { data: vec![] },
    };
    assert_eq!(error_of(&empty_write), "data長は1..=1048576 bytesで指定してください");

    let empty_transfer = Request {
        bus: BusRef::Spi { bus: 0, chip_select: 1 },
        op: Operation::Transfer { data: vec![] },
    };
    assert_eq!(error_of(&empty_transfer), "data長は1..=1048576 bytesで指定してください");

    let bad_write_read_data = Request {
        bus: BusRef::I2c { bus: 1, addr: 0x76 },
        op: Operation::WriteReadBytes { data: vec![], length: 0 },
    };
    assert_eq!(error_of(&bad_write_read_data), "data長は1..=1048576 bytesで指定してください");

    let bad_write_read_length = Request {
        bus: BusRef::I2c { bus: 1, addr: 0x76 },
        op: Operation::WriteReadBytes { data: vec![0xd0], length: 1_048_577 },
    };
    assert_eq!(error_of(&bad_write_read_length), "lengthは1..=1048576 bytesで指定してください");

    let long_pulse = gpio17(Operation::watch_edges(Some(60_001), 10, 100, None));
    assert_eq!(error_of(&long_pulse), "pre_pulse_low_msは0..=60000で指定してください");

    let no_events = gpio17(Operation::watch_edges(None, 0, 100, None));
    assert_eq!(error_of(&no_events), "max_eventsは1..=1000000で指定してください");

    let zero_timeout = gpio17(Operation::watch_edges(Some(0), 1_000_000, 0, None));
    assert_eq!(error_of(&zero_timeout), "timeout_msは1..=60000で指定してください");

    let long_polled_pulse = gpio17(Operation::watch_edges_polled(Some(70_000), 0, None, None, None));
    assert_eq!(error_of(&long_polled_pulse), "pre_pulse_low_msは0..=60000で指定してください");

    let zero_budget = gpio17(Operation::watch_edges_polled(None, 0, None, None, None));
    assert_eq!(error_of(&zero_budget), "budget_msは1..=60000で指定してください");

    let long_idle = gpio17(Operation::watch_edges_polled(None, 60_000, Some(60_000_001), None, None));
    assert_eq!(error_of(&long_idle), "idle_timeout_usは1..=60000000で指定してください");

    let wide_filter = gpio17(Operation::watch_edges_polled(None, 15, Some(100), Some(101), None));
    assert_eq!(error_of(&wide_filter), "glitch_filter_usはidle_timeout_us以下で指定してください");
}

#[test]
fn bounds_are_inclusive() {
    let max_read = Request {
        bus: BusRef::I2c { bus: 1, addr: 0x76 },
        op: Operation::ReadBytes { length: 1_048_576 },
    };
    assert!(max_read.validate().is_ok());
    assert!(gpio17(Operation::watch_edges(Some(60_000), 1_000_000, 60_000, None)).validate().is_ok());
    assert!(gpio17(Operation::watch_edges_polled(Some(0), 60_000, Some(60_000_000), Some(60_000_000), None))
        .validate()
        .is_ok());
    assert!(gpio17(Operation::Read { pull: PullWire::Up }).validate().is_ok());
    let release = Request { bus: BusRef::Spi { bus: 0, chip_select: 0 }, op: Operation::Release };
    assert!(release.validate().is_ok());
    let uart_write = Request {
        bus: BusRef::Uart { port: 0, baud_rate: 115200 },
        op: Operation::WriteBytes { data: vec![1, 2, 3] },
    };
    assert!(uart_write.validate().is_ok());
    let uart_write_read = Request {
        bus: BusRef::Uart { port: 0, baud_rate: 115200 },
        op: Operation::WriteReadBytes { data: vec![1], length: 1 },
    };
    assert!(uart_write_read.validate().is_err());
}

#[test]
fn lock_unit_of_a_bus_reference() {
    assert_eq!(BusRef::I2c { bus: 1, addr: 0x76 }.bus_id(), BusId::I2c(1));
    assert_eq!(BusId::from(&BusRef::I2c { bus: 1, addr: 0x50 }), BusId::I2c(1));
    assert_eq!(BusId::from(&BusRef::Gpio { pin: 17 }), BusId::Gpio(17));
    assert_eq!(BusId::from(&BusRef::Spi { bus: 0, chip_select: 1 }), BusId::Spi(0, 1));
    assert_eq!(BusId::from(&BusRef::Uart { port: 3, baud_rate: 9600 }), BusId::Uart(3));
}

#[test]
fn response_constructors() {
    let ok = Response::ok();
    assert!(ok.ok && ok.error.is_none() && ok.value.is_none() && ok.bytes.is_none() && ok.edges.is_none());

    let v = Response::value(true);
    assert!(v.ok);
    assert_eq!(v.value, Some(true));

    let b = Response::bytes(vec![1, 2]);
    assert_eq!(b.bytes, Some(vec![1, 2]));
    assert!(b.ok && b.value.is_none());

    let e = Response::edges(vec![EdgeEventWire { timestamp_ns: 5, rising: true }]);
    assert_eq!(e.edges, Some(vec![EdgeEventWire { timestamp_ns: 5, rising: true }]));

    let l = Response::locked_by("Local { uid: 1, pid: 2, session_id: 3 }");
    assert!(!l.ok);
    assert_eq!(l.error.as_deref(), Some("locked_by:Local { uid: 1, pid: 2, session_id: 3 }"));

    let m = Response::malformed("bad");
    assert_eq!(m.error.as_deref(), Some("malformed_request:bad"));
    assert!(m.value.is_none() && m.bytes.is_none() && m.edges.is_none());

    let h = Response::hw_error("io");
    assert_eq!(h.error.as_deref(), Some("hw_error:io"));
    assert!(!h.ok);
}
