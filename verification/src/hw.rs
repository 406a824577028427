//! Register arithmetic and argument checks of the hardware layer.
//!
//! GPIO goes through the BCM2711 register block mapped from `/dev/gpiomem`:
//! function select (3 bits per pin, 10 pins per word), set, clear and level
//! (1 bit per pin, 32 pins per word), and pull-up/down control (2 bits per
//! pin, 16 pins per word; 0b01 pulls down and 0b10 pulls up). The mapping and
//! the volatile accesses stay with the caller; this module says which word to
//! touch and what to write there.
use vstd::prelude::*;
use crate::client::{append_decimal, decimal};

verus! {

/// Highest GPIO number of the BCM2711 (GPIO0 to GPIO57).
pub const MAX_PIN: u32 = 57;

/// Highest 7-bit I2C address.
pub const MAX_I2C_ADDR: u8 = 0x7f;

/// Word offsets of the GPIO registers.
pub const GPFSEL0: usize = 0;
pub const GPSET0: usize = 7;
pub const GPCLR0: usize = 10;
pub const GPLEV0: usize = 13;
pub const GPPUPPDN0: usize = 57;

/// Errors of the hardware layer.
#[derive(Debug)]
pub enum HwError {
    OpenFailed(String),
    InvalidChannel(u32),
    TransferFailed(String),
}

/// The text of a hardware error, as it follows `hw_error:` in an answer.
pub open spec fn hw_error_text(e: HwError) -> Seq<char> {
    match e {
        HwError::OpenFailed(m) => "open failed: "@ + m@,
        HwError::InvalidChannel(c) => "invalid channel: "@ + decimal(c as nat),
        HwError::TransferFailed(m) => "transfer failed: "@ + m@,
    }
}

impl HwError {
    /// The error as text: what failed, then the detail.
    pub fn message(&self) -> (r: String)
        ensures
            r@ == hw_error_text(*self),
    {
        match self {
            HwError::OpenFailed(m) => {
                let mut r = String::from_str("open failed: ");
                r.append(m.as_str());
                r
            },
            HwError::InvalidChannel(c) => {
                let mut r = String::from_str("invalid channel: ");
                append_decimal(&mut r, *c as u64);
                r
            },
            HwError::TransferFailed(m) => {
                let mut r = String::from_str("transfer failed: ");
                r.append(m.as_str());
                r
            },
        }
    }
}

/// Pull-up or pull-down of a GPIO input.
#[derive(Clone, Copy, Debug, PartialEq, Eq, Structural)]
pub enum PullMode {
    NoPull,
    Down,
    Up,
}

/// A GPIO level.
#[derive(Clone, Copy, Debug, PartialEq, Eq, Structural)]
pub enum Level {
    Low,
    High,
}

/// The function of a GPIO pin.
#[derive(Clone, Copy, Debug, PartialEq, Eq, Structural)]
pub enum Function {
    Input,
    Output,
}

/// The 2-bit pull-control field value of a pull mode.
pub open spec fn pull_bits(p: PullMode) -> u32 {
    match p {
        PullMode::NoPull => 0,
        PullMode::Down => 1,
        PullMode::Up => 2,
    }
}

/// The 3-bit function-select field value of a function.
pub open spec fn function_bits(f: Function) -> u32 {
    match f {
        Function::Input => 0,
        Function::Output => 1,
    }
}

/// Accepts GPIO0 to GPIO57.
pub fn check_pin(pin: u32) -> (r: Result<(), HwError>)
    ensures
        r is Ok <==> pin <= MAX_PIN,
        r is Err ==> (r matches Err(HwError::InvalidChannel(c)) && c == pin),
{
    if pin > MAX_PIN {
        return Err(HwError::InvalidChannel(pin));
    }
    Ok(())
}

/// Accepts 7-bit I2C addresses.
pub fn check_i2c_addr(addr: u8) -> (r: Result<(), HwError>)
    ensures
        r is Ok <==> addr <= MAX_I2C_ADDR,
        r is Err ==> (r matches Err(HwError::InvalidChannel(c)) && c == addr as u32),
{
    if addr > MAX_I2C_ADDR {
        return Err(HwError::InvalidChannel(addr as u32));
    }
    Ok(())
}

/// The function-select word of a pin.
pub fn fsel_register(pin: u32) -> (r: usize)
    requires
        pin <= MAX_PIN,
    ensures
        r == GPFSEL0 + pin / 10,
        r <= 5,
{
    GPFSEL0 + (pin / 10) as usize
}

/// The function-select word after giving `pin` the function `func`: the
/// pin's 3-bit field holds the function and every other bit is kept.
pub fn fsel_update(current: u32, pin: u32, func: Function) -> (r: u32)
    requires
        pin <= MAX_PIN,
    ensures
        r & (7u32 << ((pin % 10) * 3)) == function_bits(func) << ((pin % 10) * 3),
        r & !(7u32 << ((pin % 10) * 3)) == current & !(7u32 << ((pin % 10) * 3)),
{
    let shift: u32 = (pin % 10) * 3;
    let bits: u32 = match func {
        Function::Input => 0,
        Function::Output => 1,
    };
    let r = (current & !(7u32 << shift)) | (bits << shift);
    assert(r & (7u32 << shift) == bits << shift && r & !(7u32 << shift) == current & !(7u32
        << shift)) by (bit_vector)
        requires
            shift <= 27,
            bits <= 7,
            r == (current & !(7u32 << shift)) | (bits << shift),
    ;
    r
}

/// The pull-control word of a pin.
pub fn pull_register(pin: u32) -> (r: usize)
    requires
        pin <= MAX_PIN,
    ensures
        r == GPPUPPDN0 + pin / 16,
        r <= 60,
{
    GPPUPPDN0 + (pin / 16) as usize
}

/// The pull-control word after giving `pin` the pull `pull`: the pin's
/// 2-bit field holds the pull and every other bit is kept.
pub fn pull_update(current: u32, pin: u32, pull: PullMode) -> (r: u32)
    requires
        pin <= MAX_PIN,
    ensures
        r & (3u32 << ((pin % 16) * 2)) == pull_bits(pull) << ((pin % 16) * 2),
        r & !(3u32 << ((pin % 16) * 2)) == current & !(3u32 << ((pin % 16) * 2)),
{
    let shift: u32 = (pin % 16) * 2;
    let bits: u32 = match pull {
        PullMode::NoPull => 0,
        PullMode::Down => 1,
        PullMode::Up => 2,
    };
    let r = (current & !(3u32 << shift)) | (bits << shift);
    assert(r & (3u32 << shift) == bits << shift && r & !(3u32 << shift) == current & !(3u32
        << shift)) by (bit_vector)
        requires
            shift <= 30,
            bits <= 3,
            r == (current & !(3u32 << shift)) | (bits << shift),
    ;
    r
}

/// Driving `pin` to `level` writes the pin's bit to the set word (high) or
/// the clear word (low); returns that word and the value to write.
pub fn output_write(pin: u32, level: Level) -> (r: (usize, u32))
    requires
        pin <= MAX_PIN,
    ensures
        r.0 == (if level == Level::High { GPSET0 } else { GPCLR0 }) + pin / 32,
        r.1 == 1u32 << (pin % 32),
{
    let base = if level == Level::High {
        GPSET0
    } else {
        GPCLR0
    };
    (base + (pin / 32) as usize, 1u32 << (pin % 32))
}

/// The level word of a pin.
pub fn level_register(pin: u32) -> (r: usize)
    requires
        pin <= MAX_PIN,
    ensures
        r == GPLEV0 + pin / 32,
{
    GPLEV0 + (pin / 32) as usize
}

/// The level of `pin` in a level word: high exactly when its bit is set.
pub fn level_from_register(value: u32, pin: u32) -> (r: Level)
    requires
        pin <= MAX_PIN,
    ensures
        r == (if value & (1u32 << (pin % 32)) != 0 { Level::High } else { Level::Low }),
{
    if value & (1u32 << (pin % 32)) != 0 {
        Level::High
    } else {
        Level::Low
    }
}

/// A Linux ioctl request code: direction in bits 30-31, argument size in
/// bits 16-29, type in bits 8-15, number in bits 0-7.
pub fn ioctl_code(dir: u32, ty: u32, nr: u32, size: u32) -> (r: u32)
    requires
        dir < 4,
        ty < 256,
        nr < 256,
        size < 0x4000,
    ensures
        r == dir * 0x4000_0000 + size * 0x1_0000 + ty * 0x100 + nr,
{
    let r = (dir << 30u32) | (ty << 8u32) | nr | (size << 16u32);
    assert(r == dir * 0x4000_0000 + size * 0x1_0000 + ty * 0x100 + nr) by (bit_vector)
        requires
            dir < 4,
            ty < 256,
            nr < 256,
            size < 0x4000,
            r == (dir << 30u32) | (ty << 8u32) | nr | (size << 16u32),
    ;
    r
}

/// Line flags of the GPIO v2 character API used by an edge watch.
pub const LINE_FLAG_INPUT: u64 = 4;
pub const LINE_FLAG_EDGE_RISING: u64 = 16;
pub const LINE_FLAG_EDGE_FALLING: u64 = 32;
pub const LINE_FLAG_BIAS_PULL_UP: u64 = 256;
pub const LINE_FLAG_BIAS_PULL_DOWN: u64 = 512;
pub const LINE_FLAG_BIAS_DISABLED: u64 = 1024;

/// The bias flag of a pull mode.
pub open spec fn bias_flag(pull: PullMode) -> u64 {
    match pull {
        PullMode::NoPull => LINE_FLAG_BIAS_DISABLED,
        PullMode::Up => LINE_FLAG_BIAS_PULL_UP,
        PullMode::Down => LINE_FLAG_BIAS_PULL_DOWN,
    }
}

/// The flags of an edge-watch line request: input, both edges, and the
/// bias of the pull mode.
pub fn edge_watch_flags(pull: PullMode) -> (r: u64)
    ensures
        r == LINE_FLAG_INPUT + LINE_FLAG_EDGE_RISING + LINE_FLAG_EDGE_FALLING + bias_flag(pull),
{
    let bias = match pull {
        PullMode::NoPull => LINE_FLAG_BIAS_DISABLED,
        PullMode::Up => LINE_FLAG_BIAS_PULL_UP,
        PullMode::Down => LINE_FLAG_BIAS_PULL_DOWN,
    };
    let r = LINE_FLAG_INPUT | LINE_FLAG_EDGE_RISING | LINE_FLAG_EDGE_FALLING | bias;
    assert(r == 4 + 16 + 32 + bias) by (bit_vector)
        requires
            bias == 256 || bias == 512 || bias == 1024,
            r == 4u64 | 16u64 | 32u64 | bias,
    ;
    r
}

/// One edge reported by the kernel.
pub struct EdgeEvent {
    pub timestamp_ns: u64,
    pub rising: bool,
}

/// The edge that a kernel line event describes: event id 1 is a rising edge.
pub fn edge_from_line_event(timestamp_ns: u64, id: u32) -> (r: EdgeEvent)
    ensures
        r.timestamp_ns == timestamp_ns,
        r.rising == (id == 1),
{
    EdgeEvent { timestamp_ns, rising: id == 1 }
}

/// The message of a line-event read that returned fewer bytes than one event.
pub open spec fn short_read_text(n: nat, expected: nat) -> Seq<char> {
    "gpio line event read: short read ("@ + decimal(n) + " bytes, expected "@ + decimal(expected)
        + ")"@
}

/// The edges of a kernel edge watch, collected up to a maximum count.
pub struct LineEventCollector {
    max_events: usize,
    events: Vec<EdgeEvent>,
}

impl LineEventCollector {
    /// The largest number of edges this collector takes.
    pub closed spec fn max(&self) -> nat {
        self.max_events as nat
    }

    /// The edges collected so far, as (timestamp, rising) pairs.
    pub closed spec fn collected(&self) -> Seq<(u64, bool)> {
        self.events@.map_values(|e: EdgeEvent| (e.timestamp_ns, e.rising))
    }

    /// The collection never exceeds its maximum.
    pub closed spec fn wf(&self) -> bool {
        self.events@.len() <= self.max_events
    }

    /// An empty collection of at most `max_events` edges.
    pub fn new(max_events: usize) -> (r: Self)
        ensures
            r.wf(),
            r.max() == max_events,
            r.collected() == Seq::<(u64, bool)>::empty(),
    {
        let r = LineEventCollector { max_events, events: Vec::new() };
        assert(r.collected() =~= Seq::<(u64, bool)>::empty());
        r
    }

    /// Whether the maximum count is reached; the watch stops waiting then.
    pub fn is_full(&self) -> (r: bool)
        requires
            self.wf(),
        ensures
            r == (self.collected().len() >= self.max()),
    {
        self.events.len() >= self.max_events
    }

    /// Whether the watch goes on waiting for events: it stops once the
    /// maximum count is collected or no time is left before the deadline.
    pub fn keeps_waiting(&self, remaining_ns: u128) -> (r: bool)
        requires
            self.wf(),
        ensures
            r == (self.collected().len() < self.max() && remaining_ns > 0),
    {
        self.events.len() < self.max_events && remaining_ns > 0
    }

    /// Takes one read of a line event: `n` bytes were read where `expected`
    /// make one event. A short read is an error and collects nothing;
    /// otherwise the event's edge is collected (event id 1 is rising).
    pub fn take_read(&mut self, n: usize, expected: usize, timestamp_ns: u64, id: u32) -> (r:
        Result<(), HwError>)
        requires
            old(self).wf(),
            old(self).collected().len() < old(self).max(),
        ensures
            final(self).wf(),
            final(self).max() == old(self).max(),
            r is Ok <==> n == expected,
            r is Ok ==> final(self).collected() == old(self).collected().push(
                (timestamp_ns, id == 1),
            ),
            r is Err ==> final(self).collected() == old(self).collected() && (r matches Err(
                HwError::TransferFailed(m),
            ) && m@ == short_read_text(n as nat, expected as nat)),
    {
        if n != expected {
            let mut m = String::from_str("gpio line event read: short read (");
            append_decimal(&mut m, n as u64);
            m.append(" bytes, expected ");
            append_decimal(&mut m, expected as u64);
            m.append(")");
            return Err(HwError::TransferFailed(m));
        }
        self.events.push(edge_from_line_event(timestamp_ns, id));
        assert(self.collected() =~= old(self).collected().push((timestamp_ns, id == 1)));
        Ok(())
    }

    /// The collected edges; there are at most the maximum count of them.
    pub fn into_events(self) -> (r: Vec<EdgeEvent>)
        requires
            self.wf(),
        ensures
            r@.len() <= self.max(),
            r@.map_values(|e: EdgeEvent| (e.timestamp_ns, e.rising)) == self.collected(),
    {
        self.events
    }
}

/// The baud rates a UART may be opened with.
#[derive(Clone, Copy, Debug, PartialEq, Eq, Structural)]
pub enum BaudRate {
    B1200,
    B2400,
    B4800,
    B9600,
    B19200,
    B38400,
    B57600,
    B115200,
}

/// The setting of a supported baud rate.
pub open spec fn baud_setting(baud: u32) -> Option<BaudRate> {
    if baud == 1200 {
        Some(BaudRate::B1200)
    } else if baud == 2400 {
        Some(BaudRate::B2400)
    } else if baud == 4800 {
        Some(BaudRate::B4800)
    } else if baud == 9600 {
        Some(BaudRate::B9600)
    } else if baud == 19200 {
        Some(BaudRate::B19200)
    } else if baud == 38400 {
        Some(BaudRate::B38400)
    } else if baud == 57600 {
        Some(BaudRate::B57600)
    } else if baud == 115200 {
        Some(BaudRate::B115200)
    } else {
        None
    }
}

/// The rate, in bits per second, of a baud setting.
pub open spec fn baud_value(b: BaudRate) -> u32 {
    match b {
        BaudRate::B1200 => 1200,
        BaudRate::B2400 => 2400,
        BaudRate::B4800 => 4800,
        BaudRate::B9600 => 9600,
        BaudRate::B19200 => 19200,
        BaudRate::B38400 => 38400,
        BaudRate::B57600 => 57600,
        BaudRate::B115200 => 115200,
    }
}

/// Every supported rate gets the setting of that same rate, and exactly the
/// eight standard rates from 1200 to 115200 baud are supported.
pub proof fn lemma_baud_setting_keeps_the_rate(baud: u32)
    ensures
        baud_setting(baud) matches Some(s) ==> baud_value(s) == baud,
        baud_setting(baud) is Some <==> (baud == 1200 || baud == 2400 || baud == 4800 || baud
            == 9600 || baud == 19200 || baud == 38400 || baud == 57600 || baud == 115200),
        baud == 1200 <==> baud_setting(baud) == Some(BaudRate::B1200),
        baud == 2400 <==> baud_setting(baud) == Some(BaudRate::B2400),
        baud == 4800 <==> baud_setting(baud) == Some(BaudRate::B4800),
        baud == 9600 <==> baud_setting(baud) == Some(BaudRate::B9600),
        baud == 19200 <==> baud_setting(baud) == Some(BaudRate::B19200),
        baud == 38400 <==> baud_setting(baud) == Some(BaudRate::B38400),
        baud == 57600 <==> baud_setting(baud) == Some(BaudRate::B57600),
        baud == 115200 <==> baud_setting(baud) == Some(BaudRate::B115200),
{
}

/// The setting of a baud rate; any other rate is an invalid channel.
pub fn baud_to_speed(baud: u32) -> (r: Result<BaudRate, HwError>)
    ensures
        baud_setting(baud) matches Some(s) ==> r matches Ok(t) && t == s,
        baud_setting(baud) is None ==> (r matches Err(HwError::InvalidChannel(c)) && c == baud),
        r matches Ok(t) ==> baud_value(t) == baud,
{
    match baud {
        1200 => Ok(BaudRate::B1200),
        2400 => Ok(BaudRate::B2400),
        4800 => Ok(BaudRate::B4800),
        9600 => Ok(BaudRate::B9600),
        19200 => Ok(BaudRate::B19200),
        38400 => Ok(BaudRate::B38400),
        57600 => Ok(BaudRate::B57600),
        115200 => Ok(BaudRate::B115200),
        _ => Err(HwError::InvalidChannel(baud)),
    }
}

/// The message of a full-duplex transfer whose buffers differ in length.
pub open spec fn length_mismatch_text(tx: nat, rx: nat) -> Seq<char> {
    "tx/rx length mismatch: tx="@ + decimal(tx) + ", rx="@ + decimal(rx)
}

/// A full-duplex SPI transfer needs as many bytes in as out.
pub fn check_transfer_lengths(tx_len: usize, rx_len: usize) -> (r: Result<(), HwError>)
    ensures
        r is Ok <==> tx_len == rx_len,
        r is Err ==> (r matches Err(HwError::TransferFailed(m)) && m@ == length_mismatch_text(
            tx_len as nat,
            rx_len as nat,
        )),
{
    if tx_len != rx_len {
        let mut m = String::from_str("tx/rx length mismatch: tx=");
        append_decimal(&mut m, tx_len as u64);
        m.append(", rx=");
        append_decimal(&mut m, rx_len as u64);
        return Err(HwError::TransferFailed(m));
    }
    Ok(())
}

} // verus!
