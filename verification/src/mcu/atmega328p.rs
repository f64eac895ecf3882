//! ATmega328P (Arduino Nano) memory-mapped I/O: GPIO ports, Timer/Counter0,
//! USART0, SPI and TWI, wired to a board that decides what the pins see.

use vstd::prelude::*;

use crate::mcu::common::{
    bit_of, lemma_set_bit, port_bit_level, port_bit_mode, spec_rx_latch, spec_serial_advance, spec_serial_write_udr, spec_timer_advance, BoardPin,
    BoardPinLevel, PinMode, PinTable, SerialState, SpiSettings, Timer0State,
};

verus! {

pub const PINB: usize = 0x23;
pub const DDRB: usize = 0x24;
pub const PORTB: usize = 0x25;
pub const PINC: usize = 0x26;
pub const DDRC: usize = 0x27;
pub const PORTC: usize = 0x28;
pub const PIND: usize = 0x29;
pub const DDRD: usize = 0x2A;
pub const PORTD: usize = 0x2B;
pub const TIFR0: usize = 0x35;
pub const TCCR0A: usize = 0x44;
pub const TCCR0B: usize = 0x45;
pub const TCNT0: usize = 0x46;
pub const SPCR: usize = 0x4C;
pub const SPSR: usize = 0x4D;
pub const SPDR: usize = 0x4E;
pub const TIMSK0: usize = 0x6E;
pub const TWBR: usize = 0xB8;
pub const TWSR: usize = 0xB9;
pub const TWAR: usize = 0xBA;
pub const TWDR: usize = 0xBB;
pub const TWCR: usize = 0xBC;
pub const TWAMR: usize = 0xBD;
pub const UCSR0A: usize = 0xC0;
pub const UCSR0B: usize = 0xC1;
pub const UCSR0C: usize = 0xC2;
pub const UBRR0L: usize = 0xC4;
pub const UBRR0H: usize = 0xC5;
pub const UDR0: usize = 0xC6;

/// Bytes of data space the I/O model reaches (through `UDR0`).
pub const NANO_IO_SPAN: usize = 0xC7;

pub const TIMER0_OVF_VECTOR: u8 = 16;
pub const USART_RX_VECTOR: u8 = 18;
pub const USART_UDRE_VECTOR: u8 = 19;
pub const USART_TX_VECTOR: u8 = 20;
pub const TWI_VECTOR: u8 = 24;

pub const TOIE0: u8 = 1;
pub const TOV0: u8 = 1;
pub const SPI2X: u8 = 1;
pub const WCOL: u8 = 0x40;
pub const SPIF: u8 = 0x80;
pub const MSTR: u8 = 0x10;
pub const SPE: u8 = 0x40;
pub const U2X0: u8 = 0x02;
pub const UDRE0: u8 = 0x20;
pub const TXC0: u8 = 0x40;
pub const RXC0: u8 = 0x80;
pub const TXEN0: u8 = 0x08;
pub const RXEN0: u8 = 0x10;
pub const UDRIE0: u8 = 0x20;
pub const TXCIE0: u8 = 0x40;
pub const RXCIE0: u8 = 0x80;
pub const TWIE: u8 = 0x01;
pub const TWEN: u8 = 0x04;
pub const TWSTO: u8 = 0x10;
pub const TWSTA: u8 = 0x20;
pub const TWEA: u8 = 0x40;
pub const TWINT: u8 = 0x80;
pub const TW_NO_INFO: u8 = 0xF8;
pub const TW_START: u8 = 0x08;
pub const TW_REP_START: u8 = 0x10;
pub const TW_MT_SLA_ACK: u8 = 0x18;
pub const TW_MT_SLA_NACK: u8 = 0x20;
pub const TW_MT_DATA_ACK: u8 = 0x28;
pub const TW_MT_DATA_NACK: u8 = 0x30;
pub const TW_MR_SLA_ACK: u8 = 0x40;
pub const TW_MR_SLA_NACK: u8 = 0x48;
pub const TW_MR_DATA_ACK: u8 = 0x50;
pub const TW_MR_DATA_NACK: u8 = 0x58;

/// What a Nano's surroundings do with its pins and buses.
///
/// Time is handed over as elapsed clock cycles together with the clock
/// frequency; the board turns them into wall time itself.
pub trait NanoBoard {
    fn advance_time(&mut self, elapsed_cycles: u64, clock_hz: u32);

    /// The level `pin` reads now.
    spec fn pin_reading(&self, pin: BoardPin) -> u8;

    /// The mode the MCU last gave `pin`, as the board keeps it.
    spec fn configured_mode(&self, pin: BoardPin) -> Option<PinMode>;

    /// The level the MCU last drove `pin` to, as the board keeps it.
    spec fn driven_output(&self, pin: BoardPin) -> Option<u8>;

    /// The bytes exchanged over SPI so far: each byte sent, with the byte
    /// the device answered. (The default bodies of these records only spare
    /// boards that are never verified from spelling them out; a verified
    /// board defines them.)
    open spec fn spi_exchanges(&self) -> Seq<(u8, u8)> {
        Seq::empty()
    }

    /// The I2C writes so far: each device address with the bytes written.
    open spec fn i2c_writes(&self) -> Seq<(u8, Seq<u8>)> {
        Seq::empty()
    }

    /// The I2C reads so far: each device address and length asked for, with
    /// the bytes the device gave (`None`: it did not answer).
    open spec fn i2c_reads(&self) -> Seq<(u8, usize, Option<Seq<u8>>)> {
        Seq::empty()
    }

    /// Whether the device at `address` would take `payload` now.
    open spec fn i2c_accepts(&self, address: u8, payload: Seq<u8>) -> bool {
        false
    }

    fn read_pin(&self, pin: BoardPin) -> (level: u8)
        ensures
            level == self.pin_reading(pin),
    ;

    /// Configures `pin`; the levels driven stay as they were.
    fn set_pin_mode(&mut self, pin: BoardPin, mode: PinMode)
        ensures
            final(self).configured_mode(pin) == Some(mode),
            forall|p: BoardPin| p != pin ==> #[trigger] final(self).configured_mode(p) == old(self).configured_mode(p),
            forall|p: BoardPin| #[trigger] final(self).driven_output(p) == old(self).driven_output(p),
            final(self).spi_exchanges() == old(self).spi_exchanges(),
            final(self).i2c_writes() == old(self).i2c_writes(),
            final(self).i2c_reads() == old(self).i2c_reads(),
    ;

    /// Drives `pin` to `level`; the modes stay as they were.
    fn write_pin(&mut self, pin: BoardPin, level: u8)
        ensures
            final(self).driven_output(pin) == Some(level),
            forall|p: BoardPin| #[trigger] final(self).configured_mode(p) == old(self).configured_mode(p),
            forall|p: BoardPin| p != pin ==> #[trigger] final(self).driven_output(p) == old(self).driven_output(p),
            final(self).spi_exchanges() == old(self).spi_exchanges(),
            final(self).i2c_writes() == old(self).i2c_writes(),
            final(self).i2c_reads() == old(self).i2c_reads(),
    ;

    /// Opens an SPI transaction.
    fn begin_spi(&mut self, settings: SpiSettings)
        ensures
            forall|p: BoardPin| #[trigger] final(self).configured_mode(p) == old(self).configured_mode(p),
            forall|p: BoardPin| #[trigger] final(self).driven_output(p) == old(self).driven_output(p),
            final(self).spi_exchanges() == old(self).spi_exchanges(),
            final(self).i2c_writes() == old(self).i2c_writes(),
            final(self).i2c_reads() == old(self).i2c_reads(),
    {
    }

    /// Sends `value` over SPI and returns the device's answer.
    fn transfer_spi(&mut self, value: u8, settings: SpiSettings) -> (reply: u8)
        ensures
            final(self).spi_exchanges() == old(self).spi_exchanges().push((value, reply)),
            forall|p: BoardPin| #[trigger] final(self).configured_mode(p) == old(self).configured_mode(p),
            forall|p: BoardPin| #[trigger] final(self).driven_output(p) == old(self).driven_output(p),
            final(self).i2c_writes() == old(self).i2c_writes(),
            final(self).i2c_reads() == old(self).i2c_reads(),
    ;

    fn end_spi(&mut self)
        ensures
            forall|p: BoardPin| #[trigger] final(self).configured_mode(p) == old(self).configured_mode(p),
            forall|p: BoardPin| #[trigger] final(self).driven_output(p) == old(self).driven_output(p),
            final(self).spi_exchanges() == old(self).spi_exchanges(),
            final(self).i2c_writes() == old(self).i2c_writes(),
            final(self).i2c_reads() == old(self).i2c_reads(),
    {
    }

    /// Whether the device at `address` would take `payload`; nothing is sent.
    fn i2c_preview_write(&self, address: u8, payload: &[u8]) -> (accepted: bool)
        ensures
            accepted == self.i2c_accepts(address, payload@),
    ;

    /// Writes `payload` to the device at `address`; returns whether it took it.
    fn i2c_write(&mut self, address: u8, payload: &[u8]) -> (accepted: bool)
        ensures
            final(self).i2c_writes() == old(self).i2c_writes().push((address, payload@)),
            forall|p: BoardPin| #[trigger] final(self).configured_mode(p) == old(self).configured_mode(p),
            forall|p: BoardPin| #[trigger] final(self).driven_output(p) == old(self).driven_output(p),
            final(self).spi_exchanges() == old(self).spi_exchanges(),
            final(self).i2c_reads() == old(self).i2c_reads(),
    ;

    /// Reads `length` bytes from the device at `address`, if it answers.
    fn i2c_read(&mut self, address: u8, length: usize) -> (bytes: Option<Vec<u8>>)
        ensures
            final(self).i2c_reads() == old(self).i2c_reads().push(
                (
                    address,
                    length,
                    match bytes {
                        Some(v) => Some(v@),
                        None => None,
                    },
                ),
            ),
            forall|p: BoardPin| #[trigger] final(self).configured_mode(p) == old(self).configured_mode(p),
            forall|p: BoardPin| #[trigger] final(self).driven_output(p) == old(self).driven_output(p),
            final(self).spi_exchanges() == old(self).spi_exchanges(),
            final(self).i2c_writes() == old(self).i2c_writes(),
    ;
}

/// A board with nothing attached: pins read back what the MCU drove, or the
/// pull-up, or a level set by hand.
#[derive(Clone)]
pub struct NullNanoBoard {
    pin_modes: PinTable<PinMode>,
    pin_levels: PinTable<u8>,
    /// What the MCU sent that nothing here acts on: the SPI exchanges (this
    /// board answers 0), the I2C writes and the I2C reads (no device
    /// answers).
    spi_log: Ghost<Seq<(u8, u8)>>,
    i2c_write_log: Ghost<Seq<(u8, Seq<u8>)>>,
    i2c_read_log: Ghost<Seq<(u8, usize, Option<Seq<u8>>)>>,
}

impl NullNanoBoard {
    /// Both tables hold one slot per pin.
    pub closed spec fn wf(&self) -> bool {
        self.pin_modes.wf() && self.pin_levels.wf()
    }

    /// The level a pin reads: a driven or set level, else 1 under a
    /// pull-up, else 0.
    pub open spec fn level(&self, pin: BoardPin) -> u8 {
        match self.driven(pin) {
            Some(level) => level,
            None => if self.mode(pin) == Some(PinMode::InputPullup) {
                1
            } else {
                0
            },
        }
    }

    /// The mode last configured for a pin.
    pub closed spec fn mode(&self, pin: BoardPin) -> Option<PinMode> {
        self.pin_modes.lookup(pin)
    }

    /// The level last driven or set for a pin.
    pub closed spec fn driven(&self, pin: BoardPin) -> Option<u8> {
        self.pin_levels.lookup(pin)
    }

    pub fn new() -> (b: Self)
        ensures
            b.wf(),
            forall|pin: BoardPin| #[trigger] b.mode(pin) is None && b.driven(pin) is None,
    {
        NullNanoBoard {
            pin_modes: PinTable::new(),
            pin_levels: PinTable::new(),
            spi_log: Ghost(Seq::empty()),
            i2c_write_log: Ghost(Seq::empty()),
            i2c_read_log: Ghost(Seq::empty()),
        }
    }

    /// Holds a pin at a level from outside (0, or 1 for any non-zero level).
    pub fn set_input_level(&mut self, pin: BoardPin, level: u8)
        ensures
            old(self).wf() ==> final(self).wf(),
            final(self).driven(pin) == Some(if level != 0 {
                1u8
            } else {
                0u8
            }),
            forall|p: BoardPin| #[trigger] final(self).mode(p) == old(self).mode(p),
            forall|p: BoardPin|
                p != pin ==> #[trigger] final(self).driven(p) == old(self).driven(p),
    {
        let normalized: u8 = if level != 0 {
            1
        } else {
            0
        };
        self.pin_levels.insert(pin, normalized);
    }

    /// Releases a pin held from outside.
    pub fn clear_input_level(&mut self, pin: BoardPin)
        ensures
            old(self).wf() ==> final(self).wf(),
            final(self).driven(pin) is None,
            forall|p: BoardPin| #[trigger] final(self).mode(p) == old(self).mode(p),
            forall|p: BoardPin|
                p != pin ==> #[trigger] final(self).driven(p) == old(self).driven(p),
    {
        self.pin_levels.remove(pin);
    }

    pub fn read_level(&self, pin: BoardPin) -> (r: u8)
        ensures
            r == self.level(pin),
    {
        match self.pin_levels.get(pin) {
            Some(level) => level,
            None => match self.pin_modes.get(pin) {
                Some(PinMode::InputPullup) => 1,
                _ => 0,
            },
        }
    }
}

impl Default for NullNanoBoard {
    fn default() -> (b: Self)
        ensures
            b.wf(),
            forall|pin: BoardPin| #[trigger] b.mode(pin) is None && b.driven(pin) is None,
    {
        NullNanoBoard::new()
    }
}

impl NanoBoard for NullNanoBoard {
    closed spec fn spi_exchanges(&self) -> Seq<(u8, u8)> {
        self.spi_log@
    }

    closed spec fn i2c_writes(&self) -> Seq<(u8, Seq<u8>)> {
        self.i2c_write_log@
    }

    closed spec fn i2c_reads(&self) -> Seq<(u8, usize, Option<Seq<u8>>)> {
        self.i2c_read_log@
    }

    open spec fn i2c_accepts(&self, address: u8, payload: Seq<u8>) -> bool {
        false
    }

    fn transfer_spi(&mut self, value: u8, settings: SpiSettings) -> (reply: u8) {
        self.spi_log = Ghost(self.spi_log@.push((value, 0u8)));
        0
    }

    fn i2c_preview_write(&self, address: u8, payload: &[u8]) -> (accepted: bool) {
        false
    }

    fn i2c_write(&mut self, address: u8, payload: &[u8]) -> (accepted: bool) {
        self.i2c_write_log = Ghost(self.i2c_write_log@.push((address, payload@)));
        false
    }

    fn i2c_read(&mut self, address: u8, length: usize) -> (bytes: Option<Vec<u8>>) {
        self.i2c_read_log = Ghost(self.i2c_read_log@.push((address, length, None)));
        None
    }

    open spec fn pin_reading(&self, pin: BoardPin) -> u8 {
        self.level(pin)
    }

    open spec fn configured_mode(&self, pin: BoardPin) -> Option<PinMode> {
        self.mode(pin)
    }

    open spec fn driven_output(&self, pin: BoardPin) -> Option<u8> {
        self.driven(pin)
    }

    fn advance_time(&mut self, elapsed_cycles: u64, clock_hz: u32) {
    }

    fn read_pin(&self, pin: BoardPin) -> (r: u8)
        ensures
            r == self.level(pin),
    {
        self.read_level(pin)
    }

    fn set_pin_mode(&mut self, pin: BoardPin, mode: PinMode)
        ensures
            old(self).wf() ==> final(self).wf(),
            final(self).mode(pin) == Some(mode),
            forall|p: BoardPin| p != pin ==> #[trigger] final(self).mode(p) == old(self).mode(p),
            forall|p: BoardPin| #[trigger] final(self).driven(p) == old(self).driven(p),
    {
        self.pin_modes.insert(pin, mode);
    }

    fn write_pin(&mut self, pin: BoardPin, level: u8)
        ensures
            old(self).wf() ==> final(self).wf(),
            final(self).driven(pin) == Some(level),
            forall|p: BoardPin| #[trigger] final(self).mode(p) == old(self).mode(p),
            forall|p: BoardPin| p != pin ==> #[trigger] final(self).driven(p) == old(self).driven(p),
    {
        self.pin_levels.insert(pin, level);
    }
}

/// `TCCR0B` clock-select bits to prescaler; `None` stops the timer.
pub open spec fn spec_timer0_prescaler(value: u8) -> Option<u32> {
    let cs = value & 7;
    if cs == 1 {
        Some(1u32)
    } else if cs == 2 {
        Some(8u32)
    } else if cs == 3 {
        Some(64u32)
    } else if cs == 4 {
        Some(256u32)
    } else if cs == 5 {
        Some(1024u32)
    } else {
        None
    }
}

pub fn timer0_prescaler(value: u8) -> (r: Option<u32>)
    ensures
        r == spec_timer0_prescaler(value),
{
    let cs = value & 7;
    if cs == 1 {
        Some(1)
    } else if cs == 2 {
        Some(8)
    } else if cs == 3 {
        Some(64)
    } else if cs == 4 {
        Some(256)
    } else if cs == 5 {
        Some(1024)
    } else {
        None
    }
}

/// Timer/Counter0's clock select (`CS02..0`, the low three bits of
/// `TCCR0B`) follows the datasheet table: 1, 2, 3, 4 and 5 divide the clock
/// by 1, 8, 64, 256 and 1024; 0, 6 and 7 leave the timer stopped (the
/// external clock inputs are not simulated).
pub proof fn law_timer0_clock_select(value: u8)
    ensures
        (value & 7) == 1 ==> spec_timer0_prescaler(value) == Some(1u32),
        (value & 7) == 2 ==> spec_timer0_prescaler(value) == Some(8u32),
        (value & 7) == 3 ==> spec_timer0_prescaler(value) == Some(64u32),
        (value & 7) == 4 ==> spec_timer0_prescaler(value) == Some(256u32),
        (value & 7) == 5 ==> spec_timer0_prescaler(value) == Some(1024u32),
        (value & 7) == 0 || (value & 7) == 6 || (value & 7) == 7 ==> spec_timer0_prescaler(value) is None,
        spec_timer0_prescaler(value) is Some <==> (1 <= (value & 7) && (value & 7) <= 5),
        spec_timer0_prescaler(value) == spec_timer0_prescaler(value & 7),
{
    assert((value & 7) <= 7) by (bit_vector);
    assert(((value & 7) & 7) == (value & 7)) by (bit_vector);
}

/// The Nano pin behind bit `bit` of a `PINx` register.
pub open spec fn spec_port_pin(pin_address: usize, bit: u8) -> Option<BoardPin> {
    if pin_address == PINB && bit < 6 {
        Some(BoardPin::Digital((8 + bit) as u8))
    } else if pin_address == PINC && bit < 6 {
        Some(BoardPin::Analog(bit))
    } else if pin_address == PIND && bit < 8 {
        Some(BoardPin::Digital(bit))
    } else {
        None
    }
}

pub fn port_pin(pin_address: usize, bit_index: u8) -> (r: Option<BoardPin>)
    ensures
        r == spec_port_pin(pin_address, bit_index),
{
    if pin_address == PINB && bit_index < 6 {
        Some(BoardPin::Digital(8 + bit_index))
    } else if pin_address == PINC && bit_index < 6 {
        Some(BoardPin::Analog(bit_index))
    } else if pin_address == PIND && bit_index < 8 {
        Some(BoardPin::Digital(bit_index))
    } else {
        None
    }
}

/// The I/O side of an ATmega328P at a given clock.
pub struct Atmega328pBus<B: NanoBoard> {
    pub board: B,
    pub clock_hz: u32,
    pub synced_cycles: u64,
    pub timer0: Timer0State,
    pub serial0: SerialState,
    pub spi_transaction_active: bool,
    pub twi_interrupt_pending: bool,
    pub twi_bus_active: bool,
    pub twi_address: Option<u8>,
    pub twi_read_mode: bool,
    pub twi_write_buffer: Vec<u8>,
    pub twi_read_buffer: Vec<u8>,
    pub twi_read_index: usize,
}

/// USART0 state unchanged.
pub open spec fn serial_same(a: SerialState, b: SerialState) -> bool {
    &&& b.tx_log@ == a.tx_log@
    &&& b.rx_queue@ == a.rx_queue@
    &&& b.tx_busy_byte == a.tx_busy_byte
    &&& b.tx_cycles_remaining == a.tx_cycles_remaining
}

/// TWI state unchanged.
pub open spec fn nano_twi_same<B: NanoBoard>(a: Atmega328pBus<B>, b: Atmega328pBus<B>) -> bool {
    &&& b.twi_interrupt_pending == a.twi_interrupt_pending
    &&& b.twi_bus_active == a.twi_bus_active
    &&& b.twi_address == a.twi_address
    &&& b.twi_read_mode == a.twi_read_mode
    &&& b.twi_write_buffer@ == a.twi_write_buffer@
    &&& b.twi_read_buffer@ == a.twi_read_buffer@
    &&& b.twi_read_index == a.twi_read_index
}

/// Every part of the bus but the board unchanged.
pub open spec fn nano_same<B: NanoBoard>(a: Atmega328pBus<B>, b: Atmega328pBus<B>) -> bool {
    &&& b.clock_hz == a.clock_hz
    &&& b.synced_cycles == a.synced_cycles
    &&& b.timer0 == a.timer0
    &&& serial_same(a.serial0, b.serial0)
    &&& b.spi_transaction_active == a.spi_transaction_active
    &&& nano_twi_same(a, b)
}

/// The data space, except the listed registers, unchanged.
pub open spec fn data_same_except(d0: Seq<u8>, d1: Seq<u8>, regs: Set<int>) -> bool {
    &&& d1.len() == d0.len()
    &&& forall|i: int| 0 <= i < d0.len() && !regs.contains(i) ==> #[trigger] d1[i] == d0[i]
}

/// Bringing timer and USART forward to `target` cycles would not overflow.
pub open spec fn nano_sync_fits<B: NanoBoard>(b: Atmega328pBus<B>, d: Seq<u8>, target: u64) -> bool {
    target > b.synced_cycles ==> {
        let delta = ((target - b.synced_cycles) as u32) as int;
        &&& spec_timer0_prescaler(d[TCCR0B as int]) is Some ==> b.timer0.cycle_remainder + delta
            <= u32::MAX
        &&& b.serial0.tx_busy_byte is Some ==> b.serial0.tx_cycles_remaining - delta >= i64::MIN
    }
}

/// The bus and data space after catching up to `target` clock cycles:
/// Timer/Counter0 and USART0 advance by the elapsed cycles (cut to 32 bits),
/// the board sees the elapsed time, and nothing happens when `target` is not
/// ahead.
pub open spec fn nano_sync<B: NanoBoard>(
    b0: Atmega328pBus<B>,
    d0: Seq<u8>,
    target: u64,
    b1: Atmega328pBus<B>,
    d1: Seq<u8>,
) -> bool {
    if target <= b0.synced_cycles {
        b1 == b0 && d1 == d0
    } else {
        let delta = (target - b0.synced_cycles) as u32;
        &&& spec_timer_advance(
            b0.timer0,
            delta,
            spec_timer0_prescaler(d0[TCCR0B as int]),
            d0[TCNT0 as int],
            d0[TIFR0 as int],
            d0[TIMSK0 as int],
            TOV0,
            TOIE0,
            b1.timer0,
            d1[TCNT0 as int],
            d1[TIFR0 as int],
        )
        &&& spec_serial_advance(
            b0.serial0,
            delta,
            d0[UCSR0A as int],
            d0[UCSR0B as int],
            d0[UDR0 as int],
            UDRE0,
            TXC0,
            RXC0,
            RXEN0,
            b1.serial0,
            d1[UCSR0A as int],
            d1[UDR0 as int],
        )
        &&& data_same_except(
            d0,
            d1,
            set![TCNT0 as int, TIFR0 as int, UCSR0A as int, UDR0 as int],
        )
        &&& b1.synced_cycles == target
        &&& b1.clock_hz == b0.clock_hz
        &&& b1.spi_transaction_active == b0.spi_transaction_active
        &&& nano_twi_same(b0, b1)
    }
}

/// `DDRx` and `PORTx` of the three ports.
pub open spec fn nano_port_config_reg(address: usize) -> bool {
    address == DDRB || address == PORTB || address == DDRC || address == PORTC || address == DDRD
        || address == PORTD
}

/// Registers that keep a written byte as it is.
pub open spec fn nano_plain_reg(address: usize) -> bool {
    address == TCCR0A || address == TCCR0B || address == TCNT0 || address == TIMSK0 || address
        == SPCR || address == TWBR || address == TWAR || address == TWDR || address == TWAMR
        || address == UBRR0L || address == UBRR0H || address == UCSR0C
}

/// Registers a read returns as they are.
pub open spec fn nano_readable_reg(address: usize) -> bool {
    nano_port_config_reg(address) || address == TIFR0 || address == TCCR0A || address == TCCR0B
        || address == TCNT0 || address == SPCR || address == SPSR || address == TIMSK0 || address
        == UCSR0A || address == UCSR0B || address == UCSR0C || address == UBRR0L || address
        == UBRR0H || address == TWBR || address == TWSR || address == TWAR || address == TWDR
        || address == TWCR || address == TWAMR
}

/// The pin behind `bit` was configured from `DDRx`/`PORTx` (`ddr`, `port`):
/// its mode from the two bits, and as an output the `PORTx` level driven.
pub open spec fn nano_bit_applied<B: NanoBoard>(b0: B, b1: B, pin: BoardPin, ddr: u8, port: u8, bit: u8) -> bool {
    &&& b1.configured_mode(pin) == Some(port_bit_mode(ddr, port, bit))
    &&& b1.driven_output(pin) == (if ddr & (1u8 << bit) != 0 {
        Some(port_bit_level(port, bit))
    } else {
        b0.driven_output(pin)
    })
}

/// The first `n` bits of the port at `pin_address` have driven the board
/// from `ddr` and `port`; the mode and level of every other pin, and the
/// SPI and I2C records, are as they were.
pub open spec fn nano_port_synced<B: NanoBoard>(b0: B, b1: B, pin_address: usize, ddr: u8, port: u8, n: u8) -> bool {
    &&& b1.spi_exchanges() == b0.spi_exchanges()
    &&& b1.i2c_writes() == b0.i2c_writes()
    &&& b1.i2c_reads() == b0.i2c_reads()
    &&& forall|bit: u8|
        bit < n && #[trigger] spec_port_pin(pin_address, bit) is Some ==> nano_bit_applied(
            b0,
            b1,
            spec_port_pin(pin_address, bit).unwrap(),
            ddr,
            port,
            bit,
        )
    &&& forall|pin: BoardPin|
        #![trigger b1.configured_mode(pin)]
        #![trigger b1.driven_output(pin)]
        (forall|bit: u8| bit < n ==> spec_port_pin(pin_address, bit) != Some(pin)) ==> {
            &&& b1.configured_mode(pin) == b0.configured_mode(pin)
            &&& b1.driven_output(pin) == b0.driven_output(pin)
        }
}

/// No pin sits on two ports.
pub proof fn lemma_nano_ports_disjoint(pa: usize, a: u8, pb: usize, b: u8)
    requires
        spec_port_pin(pa, a) is Some,
        spec_port_pin(pa, a) == spec_port_pin(pb, b),
    ensures
        pa == pb,
{
}

/// Every port in `done` has driven the board from its `DDRx`/`PORTx` in
/// `d` (the registers one and two past its `PINx`); the mode and level of
/// every pin on none of them are as they were.
pub open spec fn nano_ports_synced<B: NanoBoard>(b0: B, b1: B, d: Seq<u8>, done: Seq<usize>) -> bool {
    &&& forall|a: usize, bit: u8|
        done.contains(a) && #[trigger] spec_port_pin(a, bit) is Some ==> nano_bit_applied(
            b0,
            b1,
            spec_port_pin(a, bit).unwrap(),
            d[a + 1],
            d[a + 2],
            bit,
        )
    &&& forall|pin: BoardPin|
        #![trigger b1.configured_mode(pin)]
        #![trigger b1.driven_output(pin)]
        (forall|a: usize, bit: u8| done.contains(a) ==> spec_port_pin(a, bit) != Some(pin)) ==> {
            &&& b1.configured_mode(pin) == b0.configured_mode(pin)
            &&& b1.driven_output(pin) == b0.driven_output(pin)
        }
}

/// The `PINx` addresses of the three GPIO ports, B to D.
pub open spec fn nano_port_addresses() -> Seq<usize> {
    seq![PINB, PINC, PIND]
}

/// Driving one more port keeps what the ports driven before did.
proof fn lemma_nano_add_port<B: NanoBoard>(b0: B, b1: B, b2: B, d: Seq<u8>, done: Seq<usize>, port: usize)
    requires
        nano_ports_synced(b0, b1, d, done),
        !done.contains(port),
        nano_port_synced(b1, b2, port, d[port + 1], d[port + 2], 8),
    ensures
        nano_ports_synced(b0, b2, d, done.push(port)),
{
    let next = done.push(port);
    assert forall|a: usize, bit: u8|
        next.contains(a) && #[trigger] spec_port_pin(a, bit) is Some implies nano_bit_applied(
        b0,
        b2,
        spec_port_pin(a, bit).unwrap(),
        d[a + 1],
        d[a + 2],
        bit,
    ) by {
        let pin = spec_port_pin(a, bit).unwrap();
        if a == port {
            assert forall|a2: usize, bit2: u8| done.contains(a2) implies spec_port_pin(a2, bit2) != Some(pin) by {
                if spec_port_pin(a2, bit2) == Some(pin) {
                    lemma_nano_ports_disjoint(a2, bit2, a, bit);
                }
            }
            assert(b1.driven_output(pin) == b0.driven_output(pin));
        } else {
            assert(done.contains(a)) by {
                let k = choose|k: int| 0 <= k < next.len() && next[k] == a;
                assert(k < done.len());
                assert(done[k] == a);
            }
            assert forall|bit2: u8| bit2 < 8 implies spec_port_pin(port, bit2) != Some(pin) by {
                if spec_port_pin(port, bit2) == Some(pin) {
                    lemma_nano_ports_disjoint(port, bit2, a, bit);
                }
            }
            assert(b2.configured_mode(pin) == b1.configured_mode(pin));
        }
    }
    assert forall|pin: BoardPin|
        #![trigger b2.configured_mode(pin)]
        #![trigger b2.driven_output(pin)]
        (forall|a: usize, bit: u8| next.contains(a) ==> spec_port_pin(a, bit) != Some(pin)) implies {
            &&& b2.configured_mode(pin) == b0.configured_mode(pin)
            &&& b2.driven_output(pin) == b0.driven_output(pin)
        } by {
        assert forall|a: usize, bit: u8| done.contains(a) implies spec_port_pin(a, bit) != Some(pin) by {
            assert(next.contains(a)) by {
                let k = choose|k: int| 0 <= k < done.len() && done[k] == a;
                assert(next[k] == a);
            }
        }
        assert(next.contains(port)) by {
            assert(next[done.len() as int] == port);
        }
        assert forall|bit: u8| bit < 8 implies spec_port_pin(port, bit) != Some(pin) by {}
        assert(b1.configured_mode(pin) == b0.configured_mode(pin));
    }
}

/// Bit `bit` of the `PINx` register at `pin_address`: 1 when the pin
/// behind it reads high, else 0 (and 0 for a bit with no pin).
pub open spec fn nano_pin_bit<B: NanoBoard>(board: B, pin_address: usize, bit: u8) -> u8 {
    match spec_port_pin(pin_address, bit) {
        Some(pin) => if board.pin_reading(pin) != 0 {
            1u8
        } else {
            0u8
        },
        None => 0u8,
    }
}

/// Two bits of one port never name the same pin.
pub proof fn lemma_nano_port_pin_injective(pin_address: usize, a: u8, b: u8)
    requires
        spec_port_pin(pin_address, a) is Some,
        spec_port_pin(pin_address, a) == spec_port_pin(pin_address, b),
    ensures
        a == b,
{
}

/// The `PINx` address of the port that a `DDRx` (one past it) or `PORTx`
/// (two past it) register belongs to.
pub open spec fn nano_port_base(address: usize) -> usize {
    if address == DDRB || address == DDRC || address == DDRD {
        (address - 1) as usize
    } else {
        (address - 2) as usize
    }
}

/// `PORTx` written through its `PINx` toggle address.
pub open spec fn nano_port_of_pin(address: usize) -> int {
    if address == PINB {
        PORTB as int
    } else if address == PINC {
        PORTC as int
    } else {
        PORTD as int
    }
}

/// `UCSR0A` after a write: only `U2X0` is writable; `TXC0` is kept unless
/// the write sets it (writing one clears it).
pub open spec fn nano_ucsr0a_write(current: u8, value: u8) -> u8 {
    let base = (current & !(U2X0 | TXC0)) | (value & U2X0);
    if (value & TXC0) == 0 {
        base | (current & TXC0)
    } else {
        base
    }
}

/// The board's pin modes and driven levels are as they were.
pub open spec fn nano_pins_kept<B: NanoBoard>(b0: B, b1: B) -> bool {
    &&& forall|p: BoardPin| #[trigger] b1.configured_mode(p) == b0.configured_mode(p)
    &&& forall|p: BoardPin| #[trigger] b1.driven_output(p) == b0.driven_output(p)
}

/// The TWI state and registers after a write of `TWCR`.
pub open spec fn nano_twcr_write<B: NanoBoard>(
    b0: Atmega328pBus<B>,
    d0: Seq<u8>,
    value: u8,
    b1: Atmega328pBus<B>,
    d1: Seq<u8>,
) -> bool {
    let twcr0 = if (value & TWINT) != 0 {
        value & !TWINT
    } else {
        value
    };
    let low = d0[TWSR as int] & 3;
    let state = d0[TWSR as int] & 0xF8;
    &&& b1.clock_hz == b0.clock_hz
    &&& b1.synced_cycles == b0.synced_cycles
    &&& b1.timer0 == b0.timer0
    &&& serial_same(b0.serial0, b1.serial0)
    &&& b1.spi_transaction_active == b0.spi_transaction_active
    &&& data_same_except(d0, d1, set![TWCR as int, TWSR as int, TWDR as int])
    &&& if (value & TWEN) == 0 {
        &&& d1[TWCR as int] == twcr0
        &&& d1[TWSR as int] == low | TW_NO_INFO
        &&& d1[TWDR as int] == d0[TWDR as int]
        &&& !b1.twi_interrupt_pending && !b1.twi_bus_active && b1.twi_address is None
        &&& !b1.twi_read_mode && b1.twi_write_buffer@.len() == 0 && b1.twi_read_buffer@.len()
            == 0 && b1.twi_read_index == 0
        &&& b1.board == b0.board
    } else if (value & TWSTO) != 0 {
        &&& d1[TWCR as int] == twcr0 & !TWSTO
        &&& d1[TWSR as int] == d0[TWSR as int]
        &&& d1[TWDR as int] == d0[TWDR as int]
        &&& !b1.twi_interrupt_pending && !b1.twi_bus_active && b1.twi_address is None
        &&& !b1.twi_read_mode && b1.twi_write_buffer@.len() == 0 && b1.twi_read_buffer@.len()
            == 0 && b1.twi_read_index == 0
        &&& match b0.twi_address {
            None => b1.board == b0.board,
            Some(a) => {
                &&& b1.board.i2c_writes() == b0.board.i2c_writes().push((a, b0.twi_write_buffer@))
                &&& nano_pins_kept(b0.board, b1.board)
                &&& b1.board.spi_exchanges() == b0.board.spi_exchanges()
                &&& b1.board.i2c_reads() == b0.board.i2c_reads()
            },
        }
    } else if (value & TWSTA) != 0 {
        &&& d1[TWCR as int] == twcr0 | TWINT
        &&& d1[TWSR as int] == low | (if b0.twi_bus_active {
            TW_REP_START
        } else {
            TW_START
        })
        &&& d1[TWDR as int] == d0[TWDR as int]
        &&& b1.twi_interrupt_pending == ((d1[TWCR as int] & TWIE) != 0)
        &&& b1.twi_bus_active
        &&& b1.twi_address == b0.twi_address && b1.twi_read_mode == b0.twi_read_mode
        &&& b1.twi_write_buffer@ == b0.twi_write_buffer@ && b1.twi_read_buffer@
            == b0.twi_read_buffer@ && b1.twi_read_index == b0.twi_read_index
        &&& b1.board == b0.board
    } else if state == TW_START || state == TW_REP_START {
        let slarw = d0[TWDR as int];
        let read = (slarw & 1) != 0;
        &&& d1[TWCR as int] == twcr0 | TWINT
        &&& d1[TWDR as int] == d0[TWDR as int]
        &&& b1.twi_interrupt_pending == ((d1[TWCR as int] & TWIE) != 0)
        &&& b1.twi_bus_active == b0.twi_bus_active
        &&& b1.twi_address == Some((slarw >> 1) & 0x7F)
        &&& b1.twi_read_mode == read
        &&& b1.twi_write_buffer@.len() == 0
        &&& b1.twi_read_index == 0
        &&& if read {
            let answer = b1.board.i2c_reads().last().2;
            &&& b1.board.i2c_reads() == b0.board.i2c_reads().push(
                ((slarw >> 1) & 0x7F, 6usize, answer),
            )
            &&& nano_pins_kept(b0.board, b1.board)
            &&& b1.board.spi_exchanges() == b0.board.spi_exchanges()
            &&& b1.board.i2c_writes() == b0.board.i2c_writes()
            &&& match answer {
                Some(bytes) => d1[TWSR as int] == low | TW_MR_SLA_ACK && b1.twi_read_buffer@ == bytes,
                None => d1[TWSR as int] == low | TW_MR_SLA_NACK && b1.twi_read_buffer@.len() == 0,
            }
        } else {
            &&& b1.twi_read_buffer@.len() == 0
            &&& b1.board == b0.board
            &&& d1[TWSR as int] == low | (if b0.board.i2c_accepts((slarw >> 1) & 0x7F, Seq::empty()) {
                TW_MT_SLA_ACK
            } else {
                TW_MT_SLA_NACK
            })
        }
    } else if (state == TW_MT_SLA_ACK || state == TW_MT_DATA_ACK) && b0.twi_address is Some {
        &&& d1[TWCR as int] == twcr0 | TWINT
        &&& d1[TWDR as int] == d0[TWDR as int]
        &&& b1.twi_interrupt_pending == ((d1[TWCR as int] & TWIE) != 0)
        &&& b1.twi_bus_active == b0.twi_bus_active
        &&& b1.twi_address == b0.twi_address && b1.twi_read_mode == b0.twi_read_mode
        &&& b1.twi_read_buffer@ == b0.twi_read_buffer@ && b1.twi_read_index == b0.twi_read_index
        &&& b1.board == b0.board
        &&& if b0.board.i2c_accepts(b0.twi_address.unwrap(), b0.twi_write_buffer@.push(d0[TWDR as int])) {
            d1[TWSR as int] == low | TW_MT_DATA_ACK && b1.twi_write_buffer@ == b0.twi_write_buffer@.push(
                d0[TWDR as int],
            )
        } else {
            d1[TWSR as int] == low | TW_MT_DATA_NACK && b1.twi_write_buffer@ == b0.twi_write_buffer@
        }
    } else if (state == TW_MR_SLA_ACK || state == TW_MR_DATA_ACK) && b0.twi_read_index
        < b0.twi_read_buffer@.len() {
        &&& d1[TWCR as int] == twcr0 | TWINT
        &&& d1[TWDR as int] == b0.twi_read_buffer@[b0.twi_read_index as int]
        &&& d1[TWSR as int] == low | (if (value & TWEA) != 0 {
            TW_MR_DATA_ACK
        } else {
            TW_MR_DATA_NACK
        })
        &&& b1.twi_interrupt_pending == ((d1[TWCR as int] & TWIE) != 0)
        &&& b1.twi_read_index == b0.twi_read_index + 1
        &&& b1.twi_bus_active == b0.twi_bus_active
        &&& b1.twi_address == b0.twi_address && b1.twi_read_mode == b0.twi_read_mode
        &&& b1.twi_write_buffer@ == b0.twi_write_buffer@ && b1.twi_read_buffer@
            == b0.twi_read_buffer@
        &&& b1.board == b0.board
    } else {
        &&& d1[TWCR as int] == twcr0
        &&& d1[TWSR as int] == d0[TWSR as int]
        &&& d1[TWDR as int] == d0[TWDR as int]
        &&& !b1.twi_interrupt_pending
        &&& b1.twi_bus_active == b0.twi_bus_active
        &&& b1.twi_address == b0.twi_address && b1.twi_read_mode == b0.twi_read_mode
        &&& b1.twi_write_buffer@ == b0.twi_write_buffer@ && b1.twi_read_buffer@
            == b0.twi_read_buffer@ && b1.twi_read_index == b0.twi_read_index
        &&& b1.board == b0.board
    }
}

/// A write of `value` to I/O address `address` once the bus is in sync:
/// what happens to the registers and the bus state, and whether the
/// address belongs to the I/O model at all.
pub open spec fn nano_write_register<B: NanoBoard>(
    b0: Atmega328pBus<B>,
    d0: Seq<u8>,
    address: usize,
    value: u8,
    b1: Atmega328pBus<B>,
    d1: Seq<u8>,
    handled: bool,
) -> bool {
    if nano_port_config_reg(address) {
        let base = nano_port_base(address);
        &&& handled && d1 == d0.update(address as int, value) && nano_same(b0, b1)
        &&& nano_port_synced(b0.board, b1.board, base, d1[base + 1], d1[base + 2], 8)
    } else if address == PINB || address == PINC || address == PIND {
        let port = nano_port_of_pin(address);
        &&& handled && d1 == d0.update(port, d0[port] ^ value) && nano_same(b0, b1)
        &&& nano_port_synced(b0.board, b1.board, address, d1[address + 1], d1[address + 2], 8)
    } else if address == TIFR0 {
        let flags = d0[TIFR0 as int] & !value;
        &&& handled
        &&& d1 == d0.update(TIFR0 as int, flags)
        &&& b1.timer0.cycle_remainder == b0.timer0.cycle_remainder
        &&& b1.timer0.interrupt_pending == (if (flags & TOV0) == 0 {
            false
        } else {
            b0.timer0.interrupt_pending
        })
        &&& b1.clock_hz == b0.clock_hz && b1.synced_cycles == b0.synced_cycles
        &&& serial_same(b0.serial0, b1.serial0)
        &&& b1.spi_transaction_active == b0.spi_transaction_active
        &&& nano_twi_same(b0, b1)
        &&& b1.board == b0.board
    } else if nano_plain_reg(address) {
        handled && d1 == d0.update(address as int, value) && nano_same(b0, b1) && b1.board
            == b0.board
    } else if address == UCSR0A {
        handled && d1 == d0.update(UCSR0A as int, nano_ucsr0a_write(d0[UCSR0A as int], value))
            && nano_same(b0, b1) && b1.board == b0.board
    } else if address == UCSR0B {
        let d_mid = d0.update(UCSR0B as int, value);
        &&& handled
        &&& b1.board == b0.board
        &&& b1.clock_hz == b0.clock_hz && b1.synced_cycles == b0.synced_cycles
        &&& b1.timer0 == b0.timer0
        &&& b1.spi_transaction_active == b0.spi_transaction_active
        &&& nano_twi_same(b0, b1)
        &&& if (value & RXEN0) == 0 {
            d1 == d_mid.update(UCSR0A as int, d_mid[UCSR0A as int] & !RXC0) && serial_same(
                b0.serial0,
                b1.serial0,
            )
        } else {
            &&& data_same_except(d_mid, d1, set![UCSR0A as int, UDR0 as int])
            &&& spec_rx_latch(
                b0.serial0.rx_queue@,
                d_mid[UCSR0A as int],
                value,
                d_mid[UDR0 as int],
                RXC0,
                RXEN0,
                b1.serial0.rx_queue@,
                d1[UCSR0A as int],
                d1[UDR0 as int],
            )
            &&& b1.serial0.tx_log@ == b0.serial0.tx_log@
            &&& b1.serial0.tx_busy_byte == b0.serial0.tx_busy_byte
            &&& b1.serial0.tx_cycles_remaining == b0.serial0.tx_cycles_remaining
        }
    } else if address == SPSR {
        handled && d1 == d0.update(
            SPSR as int,
            (d0[SPSR as int] & (SPIF | WCOL)) | (value & SPI2X),
        ) && nano_same(b0, b1) && b1.board == b0.board
    } else if address == UDR0 {
        let ubrr = (d0[UBRR0L as int] as u16) | (((d0[UBRR0H as int] as u16) & 0x0F) << 8u16);
        &&& handled
        &&& data_same_except(d0, d1, set![UDR0 as int, UCSR0A as int])
        &&& d1[UDR0 as int] == value
        &&& spec_serial_write_udr(
            b0.serial0,
            value,
            b0.clock_hz,
            ubrr,
            (d0[UCSR0A as int] & U2X0) != 0,
            (d0[UCSR0B as int] & TXEN0) != 0,
            d0[UCSR0A as int],
            UDRE0,
            TXC0,
            b1.serial0,
            d1[UCSR0A as int],
        )
        &&& b1.clock_hz == b0.clock_hz && b1.synced_cycles == b0.synced_cycles
        &&& b1.timer0 == b0.timer0
        &&& b1.spi_transaction_active == b0.spi_transaction_active
        &&& nano_twi_same(b0, b1)
        &&& b1.board == b0.board
    } else if address == SPDR {
        let enabled = (d0[SPCR as int] & (SPE | MSTR)) == (SPE | MSTR);
        &&& handled
        &&& b1.clock_hz == b0.clock_hz && b1.synced_cycles == b0.synced_cycles
        &&& b1.timer0 == b0.timer0
        &&& serial_same(b0.serial0, b1.serial0)
        &&& nano_twi_same(b0, b1)
        &&& if enabled {
            &&& data_same_except(d0, d1, set![SPDR as int, SPSR as int])
            &&& d1[SPSR as int] == (d0[SPSR as int] & SPI2X) | SPIF
            &&& b1.spi_transaction_active
            &&& b1.board.spi_exchanges() == b0.board.spi_exchanges().push((value, d1[SPDR as int]))
            &&& nano_pins_kept(b0.board, b1.board)
            &&& b1.board.i2c_writes() == b0.board.i2c_writes()
            &&& b1.board.i2c_reads() == b0.board.i2c_reads()
        } else {
            &&& d1 == d0.update(SPDR as int, value)
            &&& b1.spi_transaction_active == b0.spi_transaction_active
            &&& b1.board == b0.board
        }
    } else if address == TWSR {
        handled && d1 == d0.update(
            TWSR as int,
            (d0[TWSR as int] & 0xF8) | (value & 0x03),
        ) && nano_same(b0, b1) && b1.board == b0.board
    } else if address == TWCR {
        handled && nano_twcr_write(b0, d0, value, b1, d1)
    } else {
        !handled && d1 == d0 && nano_same(b0, b1) && b1.board == b0.board
    }
}

/// A read of I/O address `address` once the bus is in sync.
pub open spec fn nano_read_register<B: NanoBoard>(
    b0: Atmega328pBus<B>,
    d0: Seq<u8>,
    address: usize,
    b1: Atmega328pBus<B>,
    d1: Seq<u8>,
    r: Option<u8>,
) -> bool {
    if address == PINB || address == PINC || address == PIND {
        &&& r matches Some(v) && forall|bit: u8|
            bit < 8 ==> #[trigger] bit_of(v, bit) == nano_pin_bit(b0.board, address, bit)
        &&& d1 == d0 && nano_same(b0, b1) && b1.board == b0.board
    } else if address == UDR0 {
        &&& r == Some(d0[UDR0 as int])
        &&& data_same_except(d0, d1, set![UCSR0A as int, UDR0 as int])
        &&& spec_rx_latch(
            b0.serial0.rx_queue@,
            d0[UCSR0A as int] & !RXC0,
            d0[UCSR0B as int],
            d0[UDR0 as int],
            RXC0,
            RXEN0,
            b1.serial0.rx_queue@,
            d1[UCSR0A as int],
            d1[UDR0 as int],
        )
        &&& b1.serial0.tx_log@ == b0.serial0.tx_log@
        &&& b1.serial0.tx_busy_byte == b0.serial0.tx_busy_byte
        &&& b1.serial0.tx_cycles_remaining == b0.serial0.tx_cycles_remaining
        &&& b1.clock_hz == b0.clock_hz && b1.synced_cycles == b0.synced_cycles
        &&& b1.timer0 == b0.timer0
        &&& b1.spi_transaction_active == b0.spi_transaction_active
        &&& nano_twi_same(b0, b1)
        &&& b1.board == b0.board
    } else if address == SPDR {
        &&& r == Some(d0[SPDR as int])
        &&& d1 == d0.update(SPSR as int, d0[SPSR as int] & !(SPIF | WCOL))
        &&& nano_same(b0, b1) && b1.board == b0.board
    } else if nano_readable_reg(address) {
        r == Some(d0[address as int]) && d1 == d0 && nano_same(b0, b1) && b1.board == b0.board
    } else {
        r is None && d1 == d0 && nano_same(b0, b1) && b1.board == b0.board
    }
}

/// The interrupt the bus raises once in sync, by priority: timer overflow,
/// receive complete, data register empty, transmit complete, TWI.
pub open spec fn nano_pending_interrupt<B: NanoBoard>(
    b0: Atmega328pBus<B>,
    d: Seq<u8>,
    b1: Atmega328pBus<B>,
    r: Option<u8>,
) -> bool {
    let ucsra = d[UCSR0A as int];
    let ucsrb = d[UCSR0B as int];
    let twcr = d[TWCR as int];
    &&& b1.board == b0.board
    &&& b1.clock_hz == b0.clock_hz && b1.synced_cycles == b0.synced_cycles
    &&& b1.timer0.cycle_remainder == b0.timer0.cycle_remainder
    &&& serial_same(b0.serial0, b1.serial0)
    &&& b1.spi_transaction_active == b0.spi_transaction_active
    &&& b1.twi_bus_active == b0.twi_bus_active && b1.twi_address == b0.twi_address
    &&& b1.twi_read_mode == b0.twi_read_mode && b1.twi_read_index == b0.twi_read_index
    &&& b1.twi_write_buffer@ == b0.twi_write_buffer@ && b1.twi_read_buffer@
        == b0.twi_read_buffer@
    &&& if b0.timer0.interrupt_pending && (d[TIMSK0 as int] & TOIE0) != 0 {
        r == Some(TIMER0_OVF_VECTOR) && !b1.timer0.interrupt_pending
            && b1.twi_interrupt_pending == b0.twi_interrupt_pending
    } else {
        &&& b1.timer0.interrupt_pending == b0.timer0.interrupt_pending
        &&& if (ucsra & RXC0) != 0 && (ucsrb & RXCIE0) != 0 && (ucsrb & RXEN0) != 0 {
            r == Some(USART_RX_VECTOR) && b1.twi_interrupt_pending == b0.twi_interrupt_pending
        } else if (ucsra & UDRE0) != 0 && (ucsrb & UDRIE0) != 0 && (ucsrb & TXEN0) != 0 {
            r == Some(USART_UDRE_VECTOR) && b1.twi_interrupt_pending
                == b0.twi_interrupt_pending
        } else if (ucsra & TXC0) != 0 && (ucsrb & TXCIE0) != 0 && (ucsrb & TXEN0) != 0 {
            r == Some(USART_TX_VECTOR) && b1.twi_interrupt_pending == b0.twi_interrupt_pending
        } else if b0.twi_interrupt_pending && (twcr & TWIE) != 0 && (twcr & TWINT) != 0 {
            r == Some(TWI_VECTOR) && !b1.twi_interrupt_pending
        } else {
            r is None && b1.twi_interrupt_pending == b0.twi_interrupt_pending
        }
    }
}

impl<B: NanoBoard> Atmega328pBus<B> {
    pub fn new(board: B, clock_hz: u32) -> (bus: Self)
        ensures
            bus.board == board,
            bus.clock_hz == clock_hz,
            bus.synced_cycles == 0,
            bus.timer0.cycle_remainder == 0 && !bus.timer0.interrupt_pending,
            bus.serial0.tx_log@.len() == 0 && bus.serial0.rx_queue@.len() == 0,
            bus.serial0.tx_busy_byte is None && bus.serial0.tx_cycles_remaining == 0,
            !bus.spi_transaction_active,
            !bus.twi_interrupt_pending && !bus.twi_bus_active && bus.twi_address is None,
            !bus.twi_read_mode && bus.twi_write_buffer@.len() == 0,
            bus.twi_read_buffer@.len() == 0 && bus.twi_read_index == 0,
    {
        Atmega328pBus {
            board,
            clock_hz,
            synced_cycles: 0,
            timer0: Timer0State::default(),
            serial0: SerialState::default(),
            spi_transaction_active: false,
            twi_interrupt_pending: false,
            twi_bus_active: false,
            twi_address: None,
            twi_read_mode: false,
            twi_write_buffer: Vec::new(),
            twi_read_buffer: Vec::new(),
            twi_read_index: 0,
        }
    }

    /// Brings timer, USART and board forward to `target_cycles`.
    pub fn sync_to_cycle(&mut self, data: &mut [u8], target_cycles: u64)
        requires
            old(data)@.len() >= NANO_IO_SPAN,
            nano_sync_fits(*old(self), old(data)@, target_cycles),
        ensures
            nano_sync(*old(self), old(data)@, target_cycles, *final(self), final(data)@),
    {
        if target_cycles <= self.synced_cycles {
            return ;
        }
        let delta = target_cycles - self.synced_cycles;
        self.board.advance_time(delta, self.clock_hz);
        let cycles: u32 = delta as u32;
        let control = data[TCCR0B];
        assert((control & 0x07) & 7 == control & 7) by (bit_vector);
        let prescaler = timer0_prescaler(control & 0x07);
        let mut tcnt0 = data[TCNT0];
        let mut tifr0 = data[TIFR0];
        let timsk0 = data[TIMSK0];
        self.timer0.advance(cycles, prescaler, &mut tcnt0, &mut tifr0, timsk0, TOV0, TOIE0);
        data[TCNT0] = tcnt0;
        data[TIFR0] = tifr0;
        let mut ucsra = data[UCSR0A];
        let ucsrb = data[UCSR0B];
        let mut udr = data[UDR0];
        self.serial0.advance(cycles, &mut ucsra, ucsrb, &mut udr, UDRE0, TXC0, RXC0, RXEN0);
        data[UCSR0A] = ucsra;
        data[UDR0] = udr;
        self.synced_cycles = target_cycles;
    }

    /// Drives the board from one port's `DDRx`/`PORTx`: outputs get their
    /// level, inputs their pull-up setting.
    /// Drives the board from one port's `DDRx`/`PORTx`: each pin of the
    /// port takes the mode its two bits give, and an output the level of
    /// its `PORTx` bit.
    fn sync_port(&mut self, data: &[u8], pin_address: usize, ddr_address: usize, port_address: usize)
        requires
            ddr_address < data@.len(),
            port_address < data@.len(),
        ensures
            nano_same(*old(self), *final(self)),
            nano_port_synced(
                old(self).board,
                final(self).board,
                pin_address,
                data@[ddr_address as int],
                data@[port_address as int],
                8,
            ),
    {
        let ddr_value = data[ddr_address];
        let port_value = data[port_address];
        let mut bit_index: u8 = 0;
        while bit_index < 8
            invariant
                bit_index <= 8,
                ddr_value == data@[ddr_address as int],
                port_value == data@[port_address as int],
                nano_same(*old(self), *self),
                nano_port_synced(old(self).board, self.board, pin_address, ddr_value, port_value, bit_index),
            decreases 8 - bit_index,
        {
            let mask: u8 = 1u8 << bit_index;
            let ghost before = self.board;
            if let Some(pin) = port_pin(pin_address, bit_index) {
                if (ddr_value & mask) != 0 {
                    self.board.set_pin_mode(pin, PinMode::Output);
                    let level: u8 = if (port_value & mask) != 0 {
                        1
                    } else {
                        0
                    };
                    self.board.write_pin(pin, level);
                } else if (port_value & mask) != 0 {
                    self.board.set_pin_mode(pin, PinMode::InputPullup);
                } else {
                    self.board.set_pin_mode(pin, PinMode::Input);
                }
                proof {
                    let b0 = old(self).board;
                    let b1 = self.board;
                    assert forall|bit: u8|
                        bit < bit_index + 1 && #[trigger] spec_port_pin(pin_address, bit) is Some
                            implies nano_bit_applied(
                        b0,
                        b1,
                        spec_port_pin(pin_address, bit).unwrap(),
                        ddr_value,
                        port_value,
                        bit,
                    ) by {
                        if bit != bit_index {
                            if spec_port_pin(pin_address, bit).unwrap() == pin {
                                lemma_nano_port_pin_injective(pin_address, bit, bit_index);
                            }
                        }
                    }
                    assert forall|p: BoardPin|
                        #![trigger b1.configured_mode(p)]
                        #![trigger b1.driven_output(p)]
                        (forall|bit: u8| bit < bit_index + 1 ==> spec_port_pin(pin_address, bit) != Some(p))
                            implies b1.configured_mode(p) == b0.configured_mode(p) && b1.driven_output(p)
                        == b0.driven_output(p) by {
                        assert(spec_port_pin(pin_address, bit_index) != Some(p));
                        assert(before.configured_mode(p) == b0.configured_mode(p));
                    }
                }
            } else {
                proof {
                    let b0 = old(self).board;
                    let b1 = self.board;
                    assert forall|p: BoardPin|
                        #![trigger b1.configured_mode(p)]
                        #![trigger b1.driven_output(p)]
                        (forall|bit: u8| bit < bit_index + 1 ==> spec_port_pin(pin_address, bit) != Some(p))
                            implies b1.configured_mode(p) == b0.configured_mode(p) && b1.driven_output(p)
                        == b0.driven_output(p) by {
                        assert(forall|bit: u8| bit < bit_index ==> spec_port_pin(pin_address, bit) != Some(p));
                    }
                }
            }
            bit_index = bit_index + 1;
        }
    }


    /// The `PINx` register at `pin_address`: bit `n` is set when the pin
    /// behind it reads high.
    fn read_pin_register(&self, pin_address: usize) -> (value: u8)
        ensures
            forall|bit: u8| bit < 8 ==> #[trigger] bit_of(value, bit) == nano_pin_bit(self.board, pin_address, bit),
    {
        let mut value: u8 = 0;
        let mut bit_index: u8 = 0;
        proof {
            assert forall|j: u8| j < 8 implies #[trigger] bit_of(value, j) == 0u8 by {
                lemma_set_bit(0u8, 0u8, j);
            }
        }
        while bit_index < 8
            invariant
                bit_index <= 8,
                forall|j: u8|
                    j < 8 ==> #[trigger] bit_of(value, j) == (if j < bit_index {
                        nano_pin_bit(self.board, pin_address, j)
                    } else {
                        0u8
                    }),
            decreases 8 - bit_index,
        {
            let ghost v0 = value;
            if let Some(pin) = port_pin(pin_address, bit_index) {
                if self.board.read_pin(pin) != 0 {
                    value = value | (1u8 << bit_index);
                    proof {
                        assert forall|j: u8| j < 8 implies #[trigger] bit_of(value, j) == (if j < bit_index + 1 {
                            nano_pin_bit(self.board, pin_address, j)
                        } else {
                            0u8
                        }) by {
                            lemma_set_bit(v0, bit_index, j);
                        }
                    }
                }
            }
            bit_index = bit_index + 1;
        }
        value
    }

    /// Levels of D0..D13 then A0..A7, as the board reads them.
    pub fn host_pin_levels(&self) -> (levels: Vec<BoardPinLevel>)
        ensures
            levels@.len() == 22,
            forall|i: int| 0 <= i < levels@.len() ==> #[trigger] levels@[i].level == self.board.pin_reading(levels@[i].pin),
            forall|i: int| 0 <= i < 14 ==> #[trigger] levels@[i].pin == BoardPin::Digital(i as u8),
            forall|i: int| 14 <= i < 22 ==> #[trigger] levels@[i].pin == BoardPin::Analog((i - 14) as u8),
    {
        let mut levels: Vec<BoardPinLevel> = Vec::new();
        let mut pin: u8 = 0;
        while pin <= 13
            invariant
                pin <= 14,
                levels@.len() == pin,
                forall|i: int| 0 <= i < levels@.len() ==> #[trigger] levels@[i].level == self.board.pin_reading(levels@[i].pin),
                forall|i: int| 0 <= i < pin ==> #[trigger] levels@[i].pin == BoardPin::Digital(i as u8),
            decreases 14 - pin,
        {
            let level = self.board.read_pin(BoardPin::Digital(pin));
            levels.push(BoardPinLevel { pin: BoardPin::Digital(pin), level });
            pin = pin + 1;
        }
        let mut pin: u8 = 0;
        while pin <= 7
            invariant
                pin <= 8,
                levels@.len() == 14 + pin,
                forall|i: int| 0 <= i < levels@.len() ==> #[trigger] levels@[i].level == self.board.pin_reading(levels@[i].pin),
                forall|i: int| 0 <= i < 14 ==> #[trigger] levels@[i].pin == BoardPin::Digital(i as u8),
                forall|i: int| 14 <= i < 14 + pin ==> #[trigger] levels@[i].pin == BoardPin::Analog((i - 14) as u8),
            decreases 8 - pin,
        {
            let level = self.board.read_pin(BoardPin::Analog(pin));
            levels.push(BoardPinLevel { pin: BoardPin::Analog(pin), level });
            pin = pin + 1;
        }
        levels
    }

    fn write_udr0(&mut self, data: &mut [u8], value: u8)
        requires
            old(data)@.len() >= NANO_IO_SPAN,
        ensures
            nano_write_register(*old(self), old(data)@, UDR0, value, *final(self), final(data)@, true),
    {
        data[UDR0] = value;
        let ubrr: u16 = (data[UBRR0L] as u16) | (((data[UBRR0H] as u16) & 0x0F) << 8u16);
        let double_speed = (data[UCSR0A] & U2X0) != 0;
        let tx_enabled = (data[UCSR0B] & TXEN0) != 0;
        let mut ucsra = data[UCSR0A];
        self.serial0.write_udr(
            value,
            self.clock_hz,
            ubrr,
            double_speed,
            tx_enabled,
            &mut ucsra,
            UDRE0,
            TXC0,
        );
        data[UCSR0A] = ucsra;
    }

    fn clear_twi(&mut self)
        ensures
            !final(self).twi_bus_active && final(self).twi_address is None,
            !final(self).twi_read_mode && final(self).twi_write_buffer@.len() == 0,
            final(self).twi_read_buffer@.len() == 0 && final(self).twi_read_index == 0,
            final(self).twi_interrupt_pending == old(self).twi_interrupt_pending,
            final(self).board == old(self).board,
            final(self).clock_hz == old(self).clock_hz,
            final(self).synced_cycles == old(self).synced_cycles,
            final(self).timer0 == old(self).timer0,
            serial_same(old(self).serial0, final(self).serial0),
            final(self).spi_transaction_active == old(self).spi_transaction_active,
    {
        self.twi_bus_active = false;
        self.twi_address = None;
        self.twi_read_mode = false;
        self.twi_write_buffer.clear();
        self.twi_read_buffer.clear();
        self.twi_read_index = 0;
    }

    fn write_twcr(&mut self, data: &mut [u8], value: u8)
        requires
            old(data)@.len() >= NANO_IO_SPAN,
        ensures
            nano_twcr_write(*old(self), old(data)@, value, *final(self), final(data)@),
    {
        data[TWCR] = value;
        self.twi_interrupt_pending = false;
        if (value & TWINT) != 0 {
            data[TWCR] = data[TWCR] & !TWINT;
        }
        if (value & TWEN) == 0 {
            self.clear_twi();
            data[TWSR] = (data[TWSR] & 0x03) | TW_NO_INFO;
            return ;
        }
        if (value & TWSTO) != 0 {
            if let Some(address) = self.twi_address {
                let _ = self.board.i2c_write(address, self.twi_write_buffer.as_slice());
            }
            data[TWCR] = data[TWCR] & !TWSTO;
            self.clear_twi();
            return ;
        }
        if (value & TWSTA) != 0 {
            let status = if self.twi_bus_active {
                TW_REP_START
            } else {
                TW_START
            };
            self.twi_bus_active = true;
            data[TWSR] = (data[TWSR] & 0x03) | status;
            data[TWCR] = data[TWCR] | TWINT;
            self.twi_interrupt_pending = (data[TWCR] & TWIE) != 0;
            return ;
        }
        let state = data[TWSR] & 0xF8;
        if state == TW_START || state == TW_REP_START {
            let slarw = data[TWDR];
            let address = (slarw >> 1) & 0x7F;
            self.twi_address = Some(address);
            self.twi_read_mode = (slarw & 0x01) != 0;
            self.twi_write_buffer.clear();
            self.twi_read_buffer.clear();
            self.twi_read_index = 0;
            if self.twi_read_mode {
                if let Some(payload) = self.board.i2c_read(address, 6) {
                    self.twi_read_buffer = payload;
                    data[TWSR] = (data[TWSR] & 0x03) | TW_MR_SLA_ACK;
                } else {
                    data[TWSR] = (data[TWSR] & 0x03) | TW_MR_SLA_NACK;
                }
            } else {
                let empty: Vec<u8> = Vec::new();
                if self.board.i2c_preview_write(address, empty.as_slice()) {
                    data[TWSR] = (data[TWSR] & 0x03) | TW_MT_SLA_ACK;
                } else {
                    data[TWSR] = (data[TWSR] & 0x03) | TW_MT_SLA_NACK;
                }
            }
            data[TWCR] = data[TWCR] | TWINT;
            self.twi_interrupt_pending = (data[TWCR] & TWIE) != 0;
        } else if state == TW_MT_SLA_ACK || state == TW_MT_DATA_ACK {
            let address = match self.twi_address {
                Some(address) => address,
                None => {
                    return ;
                },
            };
            let mut preview = self.twi_write_buffer.clone();
            assert(preview@ =~= self.twi_write_buffer@);
            preview.push(data[TWDR]);
            if self.board.i2c_preview_write(address, preview.as_slice()) {
                self.twi_write_buffer = preview;
                data[TWSR] = (data[TWSR] & 0x03) | TW_MT_DATA_ACK;
            } else {
                data[TWSR] = (data[TWSR] & 0x03) | TW_MT_DATA_NACK;
            }
            data[TWCR] = data[TWCR] | TWINT;
            self.twi_interrupt_pending = (data[TWCR] & TWIE) != 0;
        } else if state == TW_MR_SLA_ACK || state == TW_MR_DATA_ACK {
            if self.twi_read_index < self.twi_read_buffer.len() {
                data[TWDR] = self.twi_read_buffer[self.twi_read_index];
                self.twi_read_index = self.twi_read_index + 1;
                let status = if (value & TWEA) != 0 {
                    TW_MR_DATA_ACK
                } else {
                    TW_MR_DATA_NACK
                };
                data[TWSR] = (data[TWSR] & 0x03) | status;
                data[TWCR] = data[TWCR] | TWINT;
                self.twi_interrupt_pending = (data[TWCR] & TWIE) != 0;
            }
        }
    }

    /// Resets the I/O state and the USART/TWI registers, then drives the
    /// board from the current port registers.
    pub fn reset(&mut self, data: &mut [u8])
        requires
            old(data)@.len() >= NANO_IO_SPAN,
        ensures
            final(self).board.spi_exchanges() == old(self).board.spi_exchanges(),
            final(self).board.i2c_writes() == old(self).board.i2c_writes(),
            final(self).board.i2c_reads() == old(self).board.i2c_reads(),
            nano_ports_synced(old(self).board, final(self).board, final(data)@, nano_port_addresses()),
            final(self).clock_hz == old(self).clock_hz,
            final(self).synced_cycles == 0,
            final(self).timer0.cycle_remainder == 0 && !final(self).timer0.interrupt_pending,
            final(self).serial0.tx_log@.len() == 0 && final(self).serial0.rx_queue@.len() == 0,
            final(self).serial0.tx_busy_byte is None && final(self).serial0.tx_cycles_remaining
                == 0,
            !final(self).spi_transaction_active,
            !final(self).twi_interrupt_pending && !final(self).twi_bus_active
                && final(self).twi_address is None,
            !final(self).twi_read_mode && final(self).twi_write_buffer@.len() == 0,
            final(self).twi_read_buffer@.len() == 0 && final(self).twi_read_index == 0,
            final(data)@ == old(data)@.update(TIFR0 as int, 0).update(TWSR as int, TW_NO_INFO).update(
                UCSR0A as int,
                UDRE0 | TXC0,
            ).update(UCSR0B as int, 0).update(UCSR0C as int, 0).update(UBRR0L as int, 0).update(
                UBRR0H as int,
                0,
            ).update(UDR0 as int, 0),
    {
        self.synced_cycles = 0;
        self.timer0.reset();
        self.serial0.reset();
        self.spi_transaction_active = false;
        self.twi_interrupt_pending = false;
        self.clear_twi();
        data[TIFR0] = 0;
        data[TWSR] = TW_NO_INFO;
        data[UCSR0A] = UDRE0 | TXC0;
        data[UCSR0B] = 0;
        data[UCSR0C] = 0;
        data[UBRR0L] = 0;
        data[UBRR0H] = 0;
        data[UDR0] = 0;
        let ghost b0 = self.board;
        let ghost mut done: Seq<usize> = Seq::empty();
        let ghost prev = self.board;
        self.sync_port(data, PINB, DDRB, PORTB);
        proof {
            assert(!done.contains(PINB));
            lemma_nano_add_port(b0, prev, self.board, data@, done, PINB);
            done = done.push(PINB);
        }
        let ghost prev = self.board;
        self.sync_port(data, PINC, DDRC, PORTC);
        proof {
            assert(!done.contains(PINC));
            lemma_nano_add_port(b0, prev, self.board, data@, done, PINC);
            done = done.push(PINC);
        }
        let ghost prev = self.board;
        self.sync_port(data, PIND, DDRD, PORTD);
        proof {
            assert(!done.contains(PIND));
            lemma_nano_add_port(b0, prev, self.board, data@, done, PIND);
            done = done.push(PIND);
        }
        assert(done =~= nano_port_addresses());
    }

    /// A read of the data space at `address`, after catching up to
    /// `cycles`; `None` for addresses outside the I/O model.
    pub fn read_data(&mut self, data: &mut [u8], cycles: u64, address: usize) -> (r: Option<u8>)
        requires
            old(data)@.len() >= NANO_IO_SPAN,
            nano_sync_fits(*old(self), old(data)@, cycles),
        ensures
            exists|mid: Atmega328pBus<B>, mid_data: Seq<u8>|
                #![trigger nano_sync(*old(self), old(data)@, cycles, mid, mid_data)]
                nano_sync(*old(self), old(data)@, cycles, mid, mid_data) && nano_read_register(
                    mid,
                    mid_data,
                    address,
                    *final(self),
                    final(data)@,
                    r,
                ),
    {
        self.sync_to_cycle(data, cycles);
        let ghost mid = *self;
        let ghost mid_data = data@;
        let r = self.read_register(data, address);
        assert(nano_sync(*old(self), old(data)@, cycles, mid, mid_data));
        r
    }

    /// A read of the data space at `address` without catching up first.
    pub fn read_register(&mut self, data: &mut [u8], address: usize) -> (r: Option<u8>)
        requires
            old(data)@.len() >= NANO_IO_SPAN,
        ensures
            nano_read_register(*old(self), old(data)@, address, *final(self), final(data)@, r),
    {
        if address == PINB || address == PINC || address == PIND {
            Some(self.read_pin_register(address))
        } else if address == UDR0 {
            let value = data[UDR0];
            let mut ucsra = data[UCSR0A] & !RXC0;
            let ucsrb = data[UCSR0B];
            let mut udr = data[UDR0];
            self.serial0.service_rx_latch(&mut ucsra, ucsrb, &mut udr, RXC0, RXEN0);
            data[UCSR0A] = ucsra;
            data[UDR0] = udr;
            Some(value)
        } else if address == SPDR {
            let value = data[SPDR];
            data[SPSR] = data[SPSR] & !(SPIF | WCOL);
            Some(value)
        } else if address == DDRB || address == PORTB || address == DDRC || address == PORTC
            || address == DDRD || address == PORTD || address == TIFR0 || address == TCCR0A
            || address == TCCR0B || address == TCNT0 || address == SPCR || address == SPSR
            || address == TIMSK0 || address == UCSR0A || address == UCSR0B || address == UCSR0C
            || address == UBRR0L || address == UBRR0H || address == TWBR || address == TWSR
            || address == TWAR || address == TWDR || address == TWCR || address == TWAMR {
            Some(data[address])
        } else {
            None
        }
    }

    /// A write of `value` at `address`, after catching up to `cycles`;
    /// false for addresses outside the I/O model.
    pub fn write_data(&mut self, data: &mut [u8], cycles: u64, address: usize, value: u8) -> (handled: bool)
        requires
            old(data)@.len() >= NANO_IO_SPAN,
            nano_sync_fits(*old(self), old(data)@, cycles),
        ensures
            exists|mid: Atmega328pBus<B>, mid_data: Seq<u8>|
                #![trigger nano_sync(*old(self), old(data)@, cycles, mid, mid_data)]
                nano_sync(*old(self), old(data)@, cycles, mid, mid_data) && nano_write_register(
                    mid,
                    mid_data,
                    address,
                    value,
                    *final(self),
                    final(data)@,
                    handled,
                ),
    {
        self.sync_to_cycle(data, cycles);
        let ghost mid = *self;
        let ghost mid_data = data@;
        let handled = self.write_register(data, address, value);
        assert(nano_sync(*old(self), old(data)@, cycles, mid, mid_data));
        handled
    }

    /// A write of `value` at `address` without catching up first.
    pub fn write_register(&mut self, data: &mut [u8], address: usize, value: u8) -> (handled: bool)
        requires
            old(data)@.len() >= NANO_IO_SPAN,
        ensures
            nano_write_register(*old(self), old(data)@, address, value, *final(self), final(data)@, handled),
    {
        if address == DDRB || address == PORTB {
            data[address] = value;
            self.sync_port(data, PINB, DDRB, PORTB);
            true
        } else if address == DDRC || address == PORTC {
            data[address] = value;
            self.sync_port(data, PINC, DDRC, PORTC);
            true
        } else if address == DDRD || address == PORTD {
            data[address] = value;
            self.sync_port(data, PIND, DDRD, PORTD);
            true
        } else if address == PINB {
            data[PORTB] = data[PORTB] ^ value;
            self.sync_port(data, PINB, DDRB, PORTB);
            true
        } else if address == PINC {
            data[PORTC] = data[PORTC] ^ value;
            self.sync_port(data, PINC, DDRC, PORTC);
            true
        } else if address == PIND {
            data[PORTD] = data[PORTD] ^ value;
            self.sync_port(data, PIND, DDRD, PORTD);
            true
        } else if address == TIFR0 {
            data[TIFR0] = data[TIFR0] & !value;
            if (data[TIFR0] & TOV0) == 0 {
                self.timer0.interrupt_pending = false;
            }
            true
        } else if address == TCCR0A || address == TCCR0B || address == TCNT0 || address == TIMSK0
            || address == SPCR || address == TWBR || address == TWAR || address == TWDR || address
            == TWAMR || address == UBRR0L || address == UBRR0H || address == UCSR0C {
            data[address] = value;
            true
        } else if address == UCSR0A {
            let current = data[UCSR0A];
            let mut updated = (current & !(U2X0 | TXC0)) | (value & U2X0);
            if (value & TXC0) == 0 {
                updated = updated | (current & TXC0);
            }
            data[UCSR0A] = updated;
            true
        } else if address == UCSR0B {
            data[UCSR0B] = value;
            if (value & RXEN0) == 0 {
                data[UCSR0A] = data[UCSR0A] & !RXC0;
            } else {
                let mut ucsra = data[UCSR0A];
                let ucsrb = data[UCSR0B];
                let mut udr = data[UDR0];
                self.serial0.service_rx_latch(&mut ucsra, ucsrb, &mut udr, RXC0, RXEN0);
                data[UCSR0A] = ucsra;
                data[UDR0] = udr;
            }
            true
        } else if address == SPSR {
            data[SPSR] = (data[SPSR] & (SPIF | WCOL)) | (value & SPI2X);
            true
        } else if address == UDR0 {
            self.write_udr0(data, value);
            true
        } else if address == SPDR {
            data[SPDR] = value;
            if (data[SPCR] & (SPE | MSTR)) == (SPE | MSTR) {
                let settings = SpiSettings { spcr: data[SPCR], spsr: data[SPSR] };
                if !self.spi_transaction_active {
                    self.board.begin_spi(settings);
                    self.spi_transaction_active = true;
                }
                let response = self.board.transfer_spi(value, settings);
                data[SPDR] = response;
                data[SPSR] = (data[SPSR] & SPI2X) | SPIF;
            }
            true
        } else if address == TWSR {
            data[TWSR] = (data[TWSR] & 0xF8) | (value & 0x03);
            true
        } else if address == TWCR {
            self.write_twcr(data, value);
            true
        } else {
            false
        }
    }

    /// Catches up after an instruction that ended at `cycles`.
    pub fn after_step(&mut self, data: &mut [u8], cycles: u64)
        requires
            old(data)@.len() >= NANO_IO_SPAN,
            nano_sync_fits(*old(self), old(data)@, cycles),
        ensures
            nano_sync(*old(self), old(data)@, cycles, *final(self), final(data)@),
    {
        self.sync_to_cycle(data, cycles);
    }

    /// Catches up to `cycles`, then names the interrupt to take, if any, and
    /// clears its one-shot pending flag.
    pub fn pending_interrupt(&mut self, data: &mut [u8], cycles: u64) -> (r: Option<u8>)
        requires
            old(data)@.len() >= NANO_IO_SPAN,
            nano_sync_fits(*old(self), old(data)@, cycles),
        ensures
            exists|mid: Atmega328pBus<B>, mid_data: Seq<u8>|
                #![trigger nano_sync(*old(self), old(data)@, cycles, mid, mid_data)]
                nano_sync(*old(self), old(data)@, cycles, mid, mid_data) && final(data)@
                    == mid_data && nano_pending_interrupt(mid, mid_data, *final(self), r),
    {
        self.sync_to_cycle(data, cycles);
        let ghost mid = *self;
        let ghost mid_data = data@;
        assert(nano_sync(*old(self), old(data)@, cycles, mid, mid_data));
        if self.timer0.interrupt_pending && (data[TIMSK0] & TOIE0) != 0 {
            self.timer0.interrupt_pending = false;
            return Some(TIMER0_OVF_VECTOR);
        }
        if (data[UCSR0A] & RXC0) != 0 && (data[UCSR0B] & RXCIE0) != 0 && (data[UCSR0B] & RXEN0)
            != 0 {
            return Some(USART_RX_VECTOR);
        }
        if (data[UCSR0A] & UDRE0) != 0 && (data[UCSR0B] & UDRIE0) != 0 && (data[UCSR0B] & TXEN0)
            != 0 {
            return Some(USART_UDRE_VECTOR);
        }
        if (data[UCSR0A] & TXC0) != 0 && (data[UCSR0B] & TXCIE0) != 0 && (data[UCSR0B] & TXEN0)
            != 0 {
            return Some(USART_TX_VECTOR);
        }
        if self.twi_interrupt_pending && (data[TWCR] & TWIE) != 0 && (data[TWCR] & TWINT) != 0 {
            self.twi_interrupt_pending = false;
            return Some(TWI_VECTOR);
        }
        None
    }

    /// Catches up to the end of an interrupt entry of `latency_cycles`.
    pub fn on_interrupt(&mut self, data: &mut [u8], cycles: u64, latency_cycles: u8)
        requires
            old(data)@.len() >= NANO_IO_SPAN,
            cycles + latency_cycles <= u64::MAX,
            nano_sync_fits(*old(self), old(data)@, (cycles + latency_cycles) as u64),
        ensures
            nano_sync(
                *old(self),
                old(data)@,
                (cycles + latency_cycles) as u64,
                *final(self),
                final(data)@,
            ),
    {
        self.sync_to_cycle(data, cycles + latency_cycles as u64);
    }
}

} // verus!
