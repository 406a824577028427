//! The wire protocol: newline-delimited JSON, one request and one response
//! per line. This module holds the request and response values, the defaults
//! that absent fields take, and the rules a request must meet before any
//! hardware is touched. Every operation takes its bus implicitly; an I2C bus
//! is locked as a whole, whatever the device address.
use vstd::prelude::*;
use crate::lock::BusId;

verus! {

/// Idle time after the last transition that ends a polled watch when the
/// request leaves it out (the value of earlier protocol versions).
pub const DEFAULT_POLL_IDLE_TIMEOUT_US: u64 = 300;

/// Largest byte count of one transfer.
pub const MAX_TRANSFER_BYTES: usize = 1_048_576;

/// Largest number of edges one watch may collect.
pub const MAX_EDGE_EVENTS: usize = 1_000_000;

/// Longest wait, budget or start pulse of one operation, in milliseconds.
pub const MAX_OPERATION_MS: u64 = 60_000;

/// Longest idle timeout of a polled watch, in microseconds.
pub const MAX_POLL_IDLE_TIMEOUT_US: u64 = 60_000_000;

/// The idle timeout that a polled watch takes when the request leaves it out.
pub fn default_poll_idle_timeout_us() -> (r: u64)
    ensures
        r == DEFAULT_POLL_IDLE_TIMEOUT_US,
{
    DEFAULT_POLL_IDLE_TIMEOUT_US
}

/// One request line.
#[derive(Debug)]
pub struct Request {
    pub bus: BusRef,
    pub op: Operation,
}

/// The bus a request addresses. A UART port `N` is `/dev/ttySN`; its baud
/// rate applies when the port is first opened during one ownership.
#[derive(Clone, Copy, Debug, PartialEq, Eq, Structural)]
pub enum BusRef {
    Gpio { pin: u32 },
    I2c { bus: u8, addr: u8 },
    Spi { bus: u8, chip_select: u8 },
    Uart { port: u8, baud_rate: u32 },
}

/// The lock unit of a bus reference: the device address of an I2C request
/// and the baud rate of a UART request take no part in it.
pub open spec fn bus_id_of(bus: BusRef) -> BusId {
    match bus {
        BusRef::Gpio { pin } => BusId::Gpio(pin),
        BusRef::I2c { bus, .. } => BusId::I2c(bus),
        BusRef::Spi { bus, chip_select } => BusId::Spi(bus, chip_select),
        BusRef::Uart { port, .. } => BusId::Uart(port),
    }
}

impl BusRef {
    /// The lock unit of this bus reference.
    pub fn bus_id(&self) -> (r: BusId)
        ensures
            r == bus_id_of(*self),
    {
        match *self {
            BusRef::Gpio { pin } => BusId::Gpio(pin),
            BusRef::I2c { bus, .. } => BusId::I2c(bus),
            BusRef::Spi { bus, chip_select } => BusId::Spi(bus, chip_select),
            BusRef::Uart { port, .. } => BusId::Uart(port),
        }
    }
}

impl<'a> From<&'a BusRef> for BusId {
    fn from(bus: &'a BusRef) -> (r: BusId) {
        bus.bus_id()
    }
}

impl<'a> vstd::std_specs::convert::FromSpecImpl<&'a BusRef> for BusId {
    open spec fn obeys_from_spec() -> bool {
        true
    }

    open spec fn from_spec(v: &'a BusRef) -> BusId {
        bus_id_of(*v)
    }
}

/// Two I2C requests on one bus compete for the same lock, whatever their
/// device addresses.
pub proof fn lemma_i2c_locks_whole_bus(bus: u8, addr1: u8, addr2: u8)
    ensures
        bus_id_of(BusRef::I2c { bus, addr: addr1 }) == bus_id_of(BusRef::I2c { bus, addr: addr2 }),
{
}

/// Pull-up or pull-down of a GPIO input, as written on the wire.
#[derive(Clone, Copy, Debug, PartialEq, Eq, Structural)]
pub enum PullWire {
    NoPull,
    Up,
    Down,
}

impl Default for PullWire {
    fn default() -> (r: Self)
        ensures
            r == PullWire::NoPull,
    {
        PullWire::NoPull
    }
}

/// A pull setting that the request may leave out; none is the default.
pub open spec fn pull_or_default(pull: Option<PullWire>) -> PullWire {
    match pull {
        Some(p) => p,
        None => PullWire::NoPull,
    }
}

fn pull_or_none(pull: Option<PullWire>) -> (r: PullWire)
    ensures
        r == pull_or_default(pull),
{
    match pull {
        Some(p) => p,
        None => PullWire::NoPull,
    }
}

/// What a request asks of its bus.
#[derive(Debug)]
pub enum Operation {
    /// GPIO: read one level.
    Read { pull: PullWire },
    /// GPIO: drive one level.
    Write { value: bool },
    /// I2C or UART: read bytes.
    ReadBytes { length: usize },
    /// I2C or UART: write bytes.
    WriteBytes { data: Vec<u8> },
    /// I2C: write, then read without a stop in between.
    WriteReadBytes { data: Vec<u8>, length: usize },
    /// SPI: full duplex, as many bytes in as out.
    Transfer { data: Vec<u8> },
    /// GPIO: record timestamped edges through the kernel, after an optional
    /// low start pulse.
    WatchEdges {
        pre_pulse_low_ms: Option<u64>,
        max_events: usize,
        timeout_ms: u64,
        pull: PullWire,
    },
    /// GPIO: sample the raw level in a busy loop and record its changes,
    /// until the budget is spent or the line stays idle.
    WatchEdgesPolled {
        pre_pulse_low_ms: Option<u64>,
        budget_ms: u64,
        idle_timeout_us: u64,
        glitch_filter_us: u64,
        pull: PullWire,
    },
    /// Give the bus back.
    Release,
}

impl Operation {
    /// A GPIO read whose pull setting may be left out.
    pub fn read(pull: Option<PullWire>) -> (r: Operation)
        ensures
            r == (Operation::Read { pull: pull_or_default(pull) }),
    {
        Operation::Read { pull: pull_or_none(pull) }
    }

    /// A kernel edge watch whose pull setting may be left out.
    pub fn watch_edges(
        pre_pulse_low_ms: Option<u64>,
        max_events: usize,
        timeout_ms: u64,
        pull: Option<PullWire>,
    ) -> (r: Operation)
        ensures
            r == (Operation::WatchEdges {
                pre_pulse_low_ms,
                max_events,
                timeout_ms,
                pull: pull_or_default(pull),
            }),
    {
        Operation::WatchEdges { pre_pulse_low_ms, max_events, timeout_ms, pull: pull_or_none(pull) }
    }

    /// A polled edge watch whose idle timeout, glitch filter and pull setting
    /// may be left out: they then are 300 us, 0 (no filter) and none.
    pub fn watch_edges_polled(
        pre_pulse_low_ms: Option<u64>,
        budget_ms: u64,
        idle_timeout_us: Option<u64>,
        glitch_filter_us: Option<u64>,
        pull: Option<PullWire>,
    ) -> (r: Operation)
        ensures
            r == (Operation::WatchEdgesPolled {
                pre_pulse_low_ms,
                budget_ms,
                idle_timeout_us: match idle_timeout_us {
                    Some(t) => t,
                    None => DEFAULT_POLL_IDLE_TIMEOUT_US,
                },
                glitch_filter_us: match glitch_filter_us {
                    Some(g) => g,
                    None => 0,
                },
                pull: pull_or_default(pull),
            }),
    {
        let idle = match idle_timeout_us {
            Some(t) => t,
            None => default_poll_idle_timeout_us(),
        };
        let glitch = match glitch_filter_us {
            Some(g) => g,
            None => 0,
        };
        Operation::WatchEdgesPolled {
            pre_pulse_low_ms,
            budget_ms,
            idle_timeout_us: idle,
            glitch_filter_us: glitch,
            pull: pull_or_none(pull),
        }
    }
}

/// The operation may be used on the bus: GPIO takes the level operations and
/// both watches, I2C takes byte reads, writes and combined write-reads, SPI
/// takes transfers, UART takes byte reads and writes; every bus takes Release.
pub open spec fn compatible(bus: BusRef, op: Operation) -> bool {
    match op {
        Operation::Release => true,
        Operation::Read { .. } | Operation::Write { .. } | Operation::WatchEdges { .. }
        | Operation::WatchEdgesPolled { .. } => bus is Gpio,
        Operation::ReadBytes { .. } | Operation::WriteBytes { .. } => bus is I2c || bus is Uart,
        Operation::WriteReadBytes { .. } => bus is I2c,
        Operation::Transfer { .. } => bus is Spi,
    }
}

/// A transfer length lies in `1..=MAX_TRANSFER_BYTES`.
pub open spec fn length_ok(n: nat) -> bool {
    1 <= n <= MAX_TRANSFER_BYTES
}

/// A start pulse, when given, lasts at most `MAX_OPERATION_MS`.
pub open spec fn pre_pulse_ok(p: Option<u64>) -> bool {
    match p {
        Some(ms) => ms <= MAX_OPERATION_MS,
        None => true,
    }
}

/// The operation's resource use stays within the daemon's bounds.
pub open spec fn within_limits(op: Operation) -> bool {
    match op {
        Operation::ReadBytes { length } => length_ok(length as nat),
        Operation::WriteBytes { data } | Operation::Transfer { data } => length_ok(data@.len()),
        Operation::WriteReadBytes { data, length } => length_ok(data@.len()) && length_ok(
            length as nat,
        ),
        Operation::WatchEdges { pre_pulse_low_ms, max_events, timeout_ms, .. } => {
            &&& pre_pulse_ok(pre_pulse_low_ms)
            &&& 1 <= max_events <= MAX_EDGE_EVENTS
            &&& 1 <= timeout_ms <= MAX_OPERATION_MS
        },
        Operation::WatchEdgesPolled {
            pre_pulse_low_ms,
            budget_ms,
            idle_timeout_us,
            glitch_filter_us,
            ..
        } => {
            &&& pre_pulse_ok(pre_pulse_low_ms)
            &&& 1 <= budget_ms <= MAX_OPERATION_MS
            &&& 1 <= idle_timeout_us <= MAX_POLL_IDLE_TIMEOUT_US
            &&& glitch_filter_us <= idle_timeout_us
        },
        Operation::Read { .. } | Operation::Write { .. } | Operation::Release => true,
    }
}

/// A request that may go on to take its bus.
pub open spec fn request_valid(req: Request) -> bool {
    compatible(req.bus, req.op) && within_limits(req.op)
}

/// What each bus accepts, with the transfer bounds: UART reads and writes,
/// I2C reads, writes and combined write-reads, and SPI transfers of 1 to
/// `MAX_TRANSFER_BYTES` bytes; GPIO reads and writes of a level; Release on
/// any bus.
pub proof fn lemma_accepted_requests(bus: BusRef, length: usize, data: Vec<u8>)
    ensures
        1 <= length <= MAX_TRANSFER_BYTES ==> bus is Uart || bus is I2c ==> request_valid(
            Request { bus, op: Operation::ReadBytes { length } },
        ),
        1 <= data@.len() <= MAX_TRANSFER_BYTES ==> bus is Uart || bus is I2c ==> request_valid(
            Request { bus, op: Operation::WriteBytes { data } },
        ),
        1 <= data@.len() <= MAX_TRANSFER_BYTES && 1 <= length <= MAX_TRANSFER_BYTES ==> bus is I2c
            ==> request_valid(Request { bus, op: Operation::WriteReadBytes { data, length } }),
        1 <= data@.len() <= MAX_TRANSFER_BYTES ==> bus is Spi ==> request_valid(
            Request { bus, op: Operation::Transfer { data } },
        ),
        bus is Gpio ==> request_valid(Request { bus, op: Operation::Write { value: true } })
            && request_valid(Request { bus, op: Operation::Write { value: false } }),
        bus is Gpio ==> request_valid(Request { bus, op: Operation::Read { pull: PullWire::NoPull } })
            && request_valid(Request { bus, op: Operation::Read { pull: PullWire::Up } })
            && request_valid(Request { bus, op: Operation::Read { pull: PullWire::Down } }),
        request_valid(Request { bus, op: Operation::Release }),
{
}

/// What each bus refuses, whatever the values: byte operations and
/// transfers on a GPIO pin, level operations and watches on I2C, SPI and
/// UART, combined write-reads on UART and SPI, and transfers on I2C and
/// UART; and any transfer of no bytes or of more than `MAX_TRANSFER_BYTES`.
pub proof fn lemma_refused_requests(bus: BusRef, op: Operation)
    ensures
        bus is Gpio && (op is ReadBytes || op is WriteBytes || op is WriteReadBytes
            || op is Transfer) ==> !request_valid(Request { bus, op }),
        !(bus is Gpio) && (op is Read || op is Write || op is WatchEdges || op is WatchEdgesPolled)
            ==> !request_valid(Request { bus, op }),
        (bus is Uart || bus is Spi) && op is WriteReadBytes ==> !request_valid(Request { bus, op }),
        (bus is I2c || bus is Uart) && op is Transfer ==> !request_valid(Request { bus, op }),
        bus is Spi && (op is ReadBytes || op is WriteBytes) ==> !request_valid(Request { bus, op }),
        op matches Operation::ReadBytes { length } && (length == 0 || length > MAX_TRANSFER_BYTES)
            ==> !request_valid(Request { bus, op }),
        op matches Operation::WriteBytes { data } && (data@.len() == 0 || data@.len()
            > MAX_TRANSFER_BYTES) ==> !request_valid(Request { bus, op }),
        op matches Operation::Transfer { data } && (data@.len() == 0 || data@.len()
            > MAX_TRANSFER_BYTES) ==> !request_valid(Request { bus, op }),
{
}

pub open spec fn incompatible_text() -> Seq<char> {
    "指定バスではこの操作を使用できません"@
}

pub open spec fn length_text() -> Seq<char> {
    "lengthは1..=1048576 bytesで指定してください"@
}

pub open spec fn data_length_text() -> Seq<char> {
    "data長は1..=1048576 bytesで指定してください"@
}

pub open spec fn pre_pulse_text() -> Seq<char> {
    "pre_pulse_low_msは0..=60000で指定してください"@
}

pub open spec fn max_events_text() -> Seq<char> {
    "max_eventsは1..=1000000で指定してください"@
}

pub open spec fn timeout_text() -> Seq<char> {
    "timeout_msは1..=60000で指定してください"@
}

pub open spec fn budget_text() -> Seq<char> {
    "budget_msは1..=60000で指定してください"@
}

pub open spec fn idle_timeout_text() -> Seq<char> {
    "idle_timeout_usは1..=60000000で指定してください"@
}

pub open spec fn glitch_text() -> Seq<char> {
    "glitch_filter_usはidle_timeout_us以下で指定してください"@
}

/// The message of the first rule that an invalid request breaks, checked in
/// this order: bus and operation, then the fields in the order they are
/// written.
pub open spec fn violation_text(req: Request) -> Seq<char> {
    if !compatible(req.bus, req.op) {
        incompatible_text()
    } else {
        match req.op {
            Operation::ReadBytes { .. } => length_text(),
            Operation::WriteBytes { .. } | Operation::Transfer { .. } => data_length_text(),
            Operation::WriteReadBytes { data, .. } => if !length_ok(data@.len()) {
                data_length_text()
            } else {
                length_text()
            },
            Operation::WatchEdges { pre_pulse_low_ms, max_events, .. } => if !pre_pulse_ok(
                pre_pulse_low_ms,
            ) {
                pre_pulse_text()
            } else if !(1 <= max_events <= MAX_EDGE_EVENTS) {
                max_events_text()
            } else {
                timeout_text()
            },
            Operation::WatchEdgesPolled { pre_pulse_low_ms, budget_ms, idle_timeout_us, .. } => {
                if !pre_pulse_ok(pre_pulse_low_ms) {
                    pre_pulse_text()
                } else if !(1 <= budget_ms <= MAX_OPERATION_MS) {
                    budget_text()
                } else if !(1 <= idle_timeout_us <= MAX_POLL_IDLE_TIMEOUT_US) {
                    idle_timeout_text()
                } else {
                    glitch_text()
                }
            },
            _ => Seq::empty(),
        }
    }
}

fn check_length(data_field: bool, n: usize) -> (r: Result<(), String>)
    ensures
        length_ok(n as nat) ==> r is Ok,
        !length_ok(n as nat) ==> (r matches Err(e) && e@ == (if data_field {
            data_length_text()
        } else {
            length_text()
        })),
{
    if n == 0 || n > MAX_TRANSFER_BYTES {
        if data_field {
            Err(String::from_str("data長は1..=1048576 bytesで指定してください"))
        } else {
            Err(String::from_str("lengthは1..=1048576 bytesで指定してください"))
        }
    } else {
        Ok(())
    }
}

fn check_pre_pulse(p: Option<u64>) -> (r: Result<(), String>)
    ensures
        pre_pulse_ok(p) ==> r is Ok,
        !pre_pulse_ok(p) ==> (r matches Err(e) && e@ == pre_pulse_text()),
{
    match p {
        Some(ms) if ms > MAX_OPERATION_MS => Err(
            String::from_str("pre_pulse_low_msは0..=60000で指定してください"),
        ),
        _ => Ok(()),
    }
}

impl Request {
    /// Checks the operation against the bus and its resource use against the
    /// daemon's bounds, before any hardware is taken.
    pub fn validate(&self) -> (r: Result<(), String>)
        ensures
            r is Ok <==> request_valid(*self),
            r matches Err(e) ==> e@ == violation_text(*self),
    {
        let compatible = match (&self.bus, &self.op) {
            (_, Operation::Release) => true,
            (BusRef::Gpio { .. }, Operation::Read { .. }) => true,
            (BusRef::Gpio { .. }, Operation::Write { .. }) => true,
            (BusRef::Gpio { .. }, Operation::WatchEdges { .. }) => true,
            (BusRef::Gpio { .. }, Operation::WatchEdgesPolled { .. }) => true,
            (BusRef::I2c { .. }, Operation::ReadBytes { .. }) => true,
            (BusRef::I2c { .. }, Operation::WriteBytes { .. }) => true,
            (BusRef::I2c { .. }, Operation::WriteReadBytes { .. }) => true,
            (BusRef::Spi { .. }, Operation::Transfer { .. }) => true,
            (BusRef::Uart { .. }, Operation::ReadBytes { .. }) => true,
            (BusRef::Uart { .. }, Operation::WriteBytes { .. }) => true,
            _ => false,
        };
        if !compatible {
            return Err(String::from_str("指定バスではこの操作を使用できません"));
        }
        match &self.op {
            Operation::ReadBytes { length } => check_length(false, *length),
            Operation::WriteBytes { data } => check_length(true, data.len()),
            Operation::Transfer { data } => check_length(true, data.len()),
            Operation::WriteReadBytes { data, length } => {
                let first = check_length(true, data.len());
                if first.is_err() {
                    return first;
                }
                check_length(false, *length)
            },
            Operation::WatchEdges { pre_pulse_low_ms, max_events, timeout_ms, .. } => {
                let first = check_pre_pulse(*pre_pulse_low_ms);
                if first.is_err() {
                    return first;
                }
                if *max_events == 0 || *max_events > MAX_EDGE_EVENTS {
                    return Err(String::from_str("max_eventsは1..=1000000で指定してください"));
                }
                if *timeout_ms == 0 || *timeout_ms > MAX_OPERATION_MS {
                    return Err(String::from_str("timeout_msは1..=60000で指定してください"));
                }
                Ok(())
            },
            Operation::WatchEdgesPolled {
                pre_pulse_low_ms,
                budget_ms,
                idle_timeout_us,
                glitch_filter_us,
                ..
            } => {
                let first = check_pre_pulse(*pre_pulse_low_ms);
                if first.is_err() {
                    return first;
                }
                if *budget_ms == 0 || *budget_ms > MAX_OPERATION_MS {
                    return Err(String::from_str("budget_msは1..=60000で指定してください"));
                }
                if *idle_timeout_us == 0 || *idle_timeout_us > MAX_POLL_IDLE_TIMEOUT_US {
                    return Err(
                        String::from_str("idle_timeout_usは1..=60000000で指定してください"),
                    );
                }
                if *glitch_filter_us > *idle_timeout_us {
                    return Err(
                        String::from_str("glitch_filter_usはidle_timeout_us以下で指定してください"),
                    );
                }
                Ok(())
            },
            Operation::Read { .. } | Operation::Write { .. } | Operation::Release => Ok(()),
        }
    }
}

/// One recorded edge: when it happened on the monotonic clock, and whether
/// the line rose.
#[derive(Clone, Copy, Debug, PartialEq, Eq, Structural)]
pub struct EdgeEventWire {
    pub timestamp_ns: u64,
    pub rising: bool,
}

/// One response line. `ok` is true exactly when `error` is absent; at most
/// one of `value`, `bytes` and `edges` is present, and only on success.
#[derive(Debug)]
pub struct Response {
    pub ok: bool,
    pub error: Option<String>,
    pub value: Option<bool>,
    pub bytes: Option<Vec<u8>>,
    pub edges: Option<Vec<EdgeEventWire>>,
}

/// The shape that every response of this module has.
pub open spec fn response_wf(r: Response) -> bool {
    &&& r.ok <==> r.error is None
    &&& !r.ok ==> r.value is None && r.bytes is None && r.edges is None
    &&& (r.value is Some) as int + (r.bytes is Some) as int + (r.edges is Some) as int <= 1
}

/// A failure response carrying `text` as its error.
pub open spec fn is_failure(r: Response, text: Seq<char>) -> bool {
    &&& !r.ok
    &&& r.error matches Some(e) && e@ == text
    &&& r.value is None && r.bytes is None && r.edges is None
}

impl Response {
    /// Success with nothing more to say.
    pub fn ok() -> (r: Self)
        ensures
            r.ok && r.error is None && r.value is None && r.bytes is None && r.edges is None,
            response_wf(r),
    {
        Response { ok: true, error: None, value: None, bytes: None, edges: None }
    }

    /// Success carrying one level (true for high).
    pub fn value(value: bool) -> (r: Self)
        ensures
            r.ok && r.error is None && r.value == Some(value) && r.bytes is None && r.edges is None,
            response_wf(r),
    {
        Response { ok: true, error: None, value: Some(value), bytes: None, edges: None }
    }

    /// Success carrying bytes read.
    pub fn bytes(data: Vec<u8>) -> (r: Self)
        ensures
            r.ok && r.error is None && r.value is None && r.edges is None,
            r.bytes matches Some(b) && b@ == data@,
            response_wf(r),
    {
        Response { ok: true, error: None, value: None, bytes: Some(data), edges: None }
    }

    /// Success carrying recorded edges.
    pub fn edges(events: Vec<EdgeEventWire>) -> (r: Self)
        ensures
            r.ok && r.error is None && r.value is None && r.bytes is None,
            r.edges matches Some(e) && e@ == events@,
            response_wf(r),
    {
        Response { ok: true, error: None, value: None, bytes: None, edges: Some(events) }
    }

    /// The bus is held by another client, named by `holder`.
    pub fn locked_by(holder: &str) -> (r: Self)
        ensures
            is_failure(r, "locked_by:"@ + holder@),
            response_wf(r),
    {
        let mut text = String::from_str("locked_by:");
        text.append(holder);
        Response { ok: false, error: Some(text), value: None, bytes: None, edges: None }
    }

    /// The request could not be read or breaks a rule.
    pub fn malformed(msg: &str) -> (r: Self)
        ensures
            is_failure(r, "malformed_request:"@ + msg@),
            response_wf(r),
    {
        let mut text = String::from_str("malformed_request:");
        text.append(msg);
        Response { ok: false, error: Some(text), value: None, bytes: None, edges: None }
    }

    /// The hardware reported an error.
    pub fn hw_error(msg: &str) -> (r: Self)
        ensures
            is_failure(r, "hw_error:"@ + msg@),
            response_wf(r),
    {
        let mut text = String::from_str("hw_error:");
        text.append(msg);
        Response { ok: false, error: Some(text), value: None, bytes: None, edges: None }
    }
}

} // verus!
