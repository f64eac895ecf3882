//! ATmega2560 (Arduino Mega) memory-mapped I/O: eleven GPIO ports,
//! Timer/Counter0, USART0, SPI with two chip selects, the ADC, the EEPROM and
//! the Timer5 PWM outputs, wired to a board that decides what the pins see.

use vstd::prelude::*;

use crate::mcu::atmega328p::{data_same_except, serial_same, spec_timer0_prescaler, timer0_prescaler};
use crate::mcu::common::{
    spec_rx_latch, spec_serial_advance, spec_serial_write_udr, spec_timer_advance, AdcState,
    bit_of, lemma_set_bit, port_bit_level, port_bit_mode, BoardPin, BoardPinLevel, PinMode, PinTable, SerialState, SpiSettings, Timer0State,
};

verus! {

pub const PINA: usize = 0x20;
pub const DDRA: usize = 0x21;
pub const PORTA: usize = 0x22;
pub const PINB: usize = 0x23;
pub const DDRB: usize = 0x24;
pub const PORTB: usize = 0x25;
pub const PINC: usize = 0x26;
pub const DDRC: usize = 0x27;
pub const PORTC: usize = 0x28;
pub const PIND: usize = 0x29;
pub const DDRD: usize = 0x2A;
pub const PORTD: usize = 0x2B;
pub const PINE: usize = 0x2C;
pub const DDRE: usize = 0x2D;
pub const PORTE: usize = 0x2E;
pub const PINF: usize = 0x2F;
pub const DDRF: usize = 0x30;
pub const PORTF: usize = 0x31;
pub const PING: usize = 0x32;
pub const DDRG: usize = 0x33;
pub const PORTG: usize = 0x34;
pub const TIFR0: usize = 0x35;
pub const EECR: usize = 0x3F;
pub const EEDR: usize = 0x40;
pub const EEARL: usize = 0x41;
pub const EEARH: usize = 0x42;
pub const TCCR0A: usize = 0x44;
pub const TCCR0B: usize = 0x45;
pub const TCNT0: usize = 0x46;
pub const OCR0A: usize = 0x47;
pub const OCR0B: usize = 0x48;
pub const SPCR: usize = 0x4C;
pub const SPSR: usize = 0x4D;
pub const SPDR: usize = 0x4E;
pub const TIMSK0: usize = 0x6E;
pub const ADCL: usize = 0x78;
pub const ADCH: usize = 0x79;
pub const ADCSRA: usize = 0x7A;
pub const ADCSRB: usize = 0x7B;
pub const ADMUX: usize = 0x7C;
pub const DIDR2: usize = 0x7D;
pub const DIDR0: usize = 0x7E;
pub const UCSR0A: usize = 0xC0;
pub const UCSR0B: usize = 0xC1;
pub const UCSR0C: usize = 0xC2;
pub const UBRR0L: usize = 0xC4;
pub const UBRR0H: usize = 0xC5;
pub const UDR0: usize = 0xC6;
pub const PINH: usize = 0x100;
pub const DDRH: usize = 0x101;
pub const PORTH: usize = 0x102;
pub const PINJ: usize = 0x103;
pub const DDRJ: usize = 0x104;
pub const PORTJ: usize = 0x105;
pub const PINK: usize = 0x106;
pub const DDRK: usize = 0x107;
pub const PORTK: usize = 0x108;
pub const PINL: usize = 0x109;
pub const DDRL: usize = 0x10A;
pub const PORTL: usize = 0x10B;
pub const OCR5CL: usize = 0x12C;
pub const OCR5CH: usize = 0x12D;
pub const OCR5AL: usize = 0x128;
pub const OCR5AH: usize = 0x129;
pub const OCR5BL: usize = 0x12A;
pub const OCR5BH: usize = 0x12B;

/// Bytes of data space the I/O model reaches (through `OCR5CH`).
pub const MEGA_IO_SPAN: usize = 0x12E;

pub const TIMER0_OVF_VECTOR: u8 = 23;
pub const USART_RX_VECTOR: u8 = 25;
pub const USART_UDRE_VECTOR: u8 = 26;
pub const USART_TX_VECTOR: u8 = 27;
pub const ADC_VECTOR: u8 = 29;

pub const TOIE0: u8 = 1;
pub const TOV0: u8 = 1;
pub const SPI2X: u8 = 1;
pub const WCOL: u8 = 0x40;
pub const SPIF: u8 = 0x80;
pub const MSTR: u8 = 0x10;
pub const SPE: u8 = 0x40;
pub const U2X0: u8 = 0x02;
pub const UDRE0: u8 = 0x20;
pub const TXC0: u8 = 0x40;
pub const RXC0: u8 = 0x80;
pub const TXEN0: u8 = 0x08;
pub const RXEN0: u8 = 0x10;
pub const UDRIE0: u8 = 0x20;
pub const TXCIE0: u8 = 0x40;
pub const RXCIE0: u8 = 0x80;
pub const EERE: u8 = 0x01;
pub const EEPE: u8 = 0x02;
pub const EEMPE: u8 = 0x04;
pub const ADPS_MASK: u8 = 0x07;
pub const ADIE: u8 = 0x08;
pub const ADIF: u8 = 0x10;
pub const ADSC: u8 = 0x40;
pub const ADEN: u8 = 0x80;
pub const MUX5: u8 = 0x08;

/// What a Mega's surroundings do with its pins, its two SPI peripherals
/// (CAN on D26, RTD on D27 as chip selects), its analog inputs and PWM.
///
/// Time is handed over as elapsed clock cycles together with the clock
/// frequency; the board turns them into wall time itself.
pub trait MegaBoard {
    fn advance_time(&mut self, elapsed_cycles: u64, clock_hz: u32);

    /// The level `pin` reads now.
    spec fn pin_reading(&self, pin: BoardPin) -> u8;

    /// The mode the MCU last gave `pin`, as the board keeps it.
    spec fn configured_mode(&self, pin: BoardPin) -> Option<PinMode>;

    /// The level the MCU last drove `pin` to, as the board keeps it.
    spec fn driven_output(&self, pin: BoardPin) -> Option<u8>;

    /// The PWM duty the MCU last set on `pin`, as the board keeps it.
    /// (The default body only spares boards that are never verified from
    /// spelling out this record; a verified board defines it.)
    open spec fn pwm_duty(&self, pin: BoardPin) -> Option<u8> {
        None
    }

    /// The bytes exchanged with the CAN controller (chip select D26) so
    /// far: each byte sent, with the byte the controller answered.
    open spec fn can_exchanges(&self) -> Seq<(u8, u8)> {
        Seq::empty()
    }

    /// The same for the RTD converter (chip select D27).
    open spec fn rtd_exchanges(&self) -> Seq<(u8, u8)> {
        Seq::empty()
    }

    fn read_pin(&self, pin: BoardPin) -> (level: u8)
        ensures
            level == self.pin_reading(pin),
    ;

    /// Configures `pin`; the levels driven stay as they were.
    fn set_pin_mode(&mut self, pin: BoardPin, mode: PinMode)
        ensures
            final(self).configured_mode(pin) == Some(mode),
            forall|p: BoardPin| p != pin ==> #[trigger] final(self).configured_mode(p) == old(self).configured_mode(p),
            forall|p: BoardPin| #[trigger] final(self).driven_output(p) == old(self).driven_output(p),
            forall|p: BoardPin| #[trigger] final(self).pwm_duty(p) == old(self).pwm_duty(p),
            final(self).can_exchanges() == old(self).can_exchanges(),
            final(self).rtd_exchanges() == old(self).rtd_exchanges(),
    ;

    /// Drives `pin` to `level`; the modes stay as they were.
    fn write_pin(&mut self, pin: BoardPin, level: u8)
        ensures
            final(self).driven_output(pin) == Some(level),
            forall|p: BoardPin| #[trigger] final(self).configured_mode(p) == old(self).configured_mode(p),
            forall|p: BoardPin| p != pin ==> #[trigger] final(self).driven_output(p) == old(self).driven_output(p),
            forall|p: BoardPin| #[trigger] final(self).pwm_duty(p) == old(self).pwm_duty(p),
            final(self).can_exchanges() == old(self).can_exchanges(),
            final(self).rtd_exchanges() == old(self).rtd_exchanges(),
    ;

    /// Sets the PWM duty on `pin`.
    fn set_pwm_duty(&mut self, pin: BoardPin, duty: u8)
        ensures
            final(self).pwm_duty(pin) == Some(duty),
            forall|p: BoardPin| p != pin ==> #[trigger] final(self).pwm_duty(p) == old(self).pwm_duty(p),
            forall|p: BoardPin| #[trigger] final(self).configured_mode(p) == old(self).configured_mode(p),
            forall|p: BoardPin| #[trigger] final(self).driven_output(p) == old(self).driven_output(p),
            final(self).can_exchanges() == old(self).can_exchanges(),
            final(self).rtd_exchanges() == old(self).rtd_exchanges(),
    ;

    /// Opens a transaction with the CAN controller.
    fn begin_spi_can(&mut self, settings: SpiSettings)
        ensures
            forall|p: BoardPin| #[trigger] final(self).configured_mode(p) == old(self).configured_mode(p),
            forall|p: BoardPin| #[trigger] final(self).driven_output(p) == old(self).driven_output(p),
            forall|p: BoardPin| #[trigger] final(self).pwm_duty(p) == old(self).pwm_duty(p),
            final(self).can_exchanges() == old(self).can_exchanges(),
            final(self).rtd_exchanges() == old(self).rtd_exchanges(),
    {
    }

    /// Sends `value` to the CAN controller and returns its answer.
    fn transfer_spi_can(&mut self, value: u8, settings: SpiSettings) -> (reply: u8)
        ensures
            final(self).can_exchanges() == old(self).can_exchanges().push((value, reply)),
            final(self).rtd_exchanges() == old(self).rtd_exchanges(),
            forall|p: BoardPin| #[trigger] final(self).configured_mode(p) == old(self).configured_mode(p),
            forall|p: BoardPin| #[trigger] final(self).driven_output(p) == old(self).driven_output(p),
            forall|p: BoardPin| #[trigger] final(self).pwm_duty(p) == old(self).pwm_duty(p),
    ;

    fn end_spi_can(&mut self)
        ensures
            forall|p: BoardPin| #[trigger] final(self).configured_mode(p) == old(self).configured_mode(p),
            forall|p: BoardPin| #[trigger] final(self).driven_output(p) == old(self).driven_output(p),
            forall|p: BoardPin| #[trigger] final(self).pwm_duty(p) == old(self).pwm_duty(p),
            final(self).can_exchanges() == old(self).can_exchanges(),
            final(self).rtd_exchanges() == old(self).rtd_exchanges(),
    {
    }

    /// Opens a transaction with the RTD converter.
    fn begin_spi_rtd(&mut self, settings: SpiSettings)
        ensures
            forall|p: BoardPin| #[trigger] final(self).configured_mode(p) == old(self).configured_mode(p),
            forall|p: BoardPin| #[trigger] final(self).driven_output(p) == old(self).driven_output(p),
            forall|p: BoardPin| #[trigger] final(self).pwm_duty(p) == old(self).pwm_duty(p),
            final(self).can_exchanges() == old(self).can_exchanges(),
            final(self).rtd_exchanges() == old(self).rtd_exchanges(),
    {
    }

    /// Sends `value` to the RTD converter and returns its answer.
    fn transfer_spi_rtd(&mut self, value: u8, settings: SpiSettings) -> (reply: u8)
        ensures
            final(self).rtd_exchanges() == old(self).rtd_exchanges().push((value, reply)),
            final(self).can_exchanges() == old(self).can_exchanges(),
            forall|p: BoardPin| #[trigger] final(self).configured_mode(p) == old(self).configured_mode(p),
            forall|p: BoardPin| #[trigger] final(self).driven_output(p) == old(self).driven_output(p),
            forall|p: BoardPin| #[trigger] final(self).pwm_duty(p) == old(self).pwm_duty(p),
    ;

    fn end_spi_rtd(&mut self)
        ensures
            forall|p: BoardPin| #[trigger] final(self).configured_mode(p) == old(self).configured_mode(p),
            forall|p: BoardPin| #[trigger] final(self).driven_output(p) == old(self).driven_output(p),
            forall|p: BoardPin| #[trigger] final(self).pwm_duty(p) == old(self).pwm_duty(p),
            final(self).can_exchanges() == old(self).can_exchanges(),
            final(self).rtd_exchanges() == old(self).rtd_exchanges(),
    {
    }

    /// The ADC counts `pin` reads now.
    spec fn analog_reading(&self, pin: BoardPin) -> u16;

    fn analog_input_counts(&self, pin: BoardPin) -> (counts: u16)
        ensures
            counts == self.analog_reading(pin),
    ;

    fn eeprom_size(&self) -> usize {
        0x1000
    }
}

/// A board with nothing attached: pins read back what the MCU drove, or the
/// pull-up, or a level set by hand; analog inputs read a level set by hand,
/// or full scale on A0 (an idle keypad shield), or 0.
#[derive(Clone)]
pub struct NullMegaBoard {
    pin_modes: PinTable<PinMode>,
    pin_levels: PinTable<u8>,
    analog_input_levels: PinTable<u16>,
    /// What the MCU set and sent that nothing here acts on: the PWM duty per
    /// pin and the SPI exchanges with each device (this board answers 0).
    pwm_duties: Ghost<Map<BoardPin, u8>>,
    can_log: Ghost<Seq<(u8, u8)>>,
    rtd_log: Ghost<Seq<(u8, u8)>>,
}

impl NullMegaBoard {
    /// All tables hold one slot per pin.
    pub closed spec fn wf(&self) -> bool {
        self.pin_modes.wf() && self.pin_levels.wf() && self.analog_input_levels.wf()
    }

    /// The level a pin reads: a driven or set level, else 1 under a
    /// pull-up, else 0.
    pub open spec fn level(&self, pin: BoardPin) -> u8 {
        match self.driven(pin) {
            Some(level) => level,
            None => if self.mode(pin) == Some(PinMode::InputPullup) {
                1
            } else {
                0
            },
        }
    }

    pub closed spec fn mode(&self, pin: BoardPin) -> Option<PinMode> {
        self.pin_modes.lookup(pin)
    }

    pub closed spec fn driven(&self, pin: BoardPin) -> Option<u8> {
        self.pin_levels.lookup(pin)
    }

    /// The analog level set by hand for a pin.
    pub closed spec fn analog_set(&self, pin: BoardPin) -> Option<u16> {
        self.analog_input_levels.lookup(pin)
    }

    /// ADC counts a pin reads.
    pub open spec fn counts(&self, pin: BoardPin) -> u16 {
        match self.analog_set(pin) {
            Some(level) => if level > 1023 {
                1023
            } else {
                level
            },
            None => if pin == BoardPin::Analog(0) {
                1023
            } else {
                0
            },
        }
    }

    pub fn new() -> (b: Self)
        ensures
            b.wf(),
            forall|pin: BoardPin|
                #[trigger] b.mode(pin) is None && b.driven(pin) is None && b.analog_set(pin) is None,
    {
        NullMegaBoard {
            pin_modes: PinTable::new(),
            pin_levels: PinTable::new(),
            analog_input_levels: PinTable::new(),
            pwm_duties: Ghost(Map::empty()),
            can_log: Ghost(Seq::empty()),
            rtd_log: Ghost(Seq::empty()),
        }
    }

    /// Holds a pin at a level from outside (0, or 1 for any non-zero level).
    pub fn set_input_level(&mut self, pin: BoardPin, level: u8)
        ensures
            old(self).wf() ==> final(self).wf(),
            final(self).driven(pin) == Some(if level != 0 {
                1u8
            } else {
                0u8
            }),
            forall|p: BoardPin| #[trigger] final(self).mode(p) == old(self).mode(p),
            forall|p: BoardPin|
                p != pin ==> #[trigger] final(self).driven(p) == old(self).driven(p),
            forall|p: BoardPin| #[trigger] final(self).analog_set(p) == old(self).analog_set(p),
    {
        let normalized: u8 = if level != 0 {
            1
        } else {
            0
        };
        self.pin_levels.insert(pin, normalized);
    }

    /// Releases a pin held from outside.
    pub fn clear_input_level(&mut self, pin: BoardPin)
        ensures
            old(self).wf() ==> final(self).wf(),
            final(self).driven(pin) is None,
            forall|p: BoardPin| #[trigger] final(self).mode(p) == old(self).mode(p),
            forall|p: BoardPin|
                p != pin ==> #[trigger] final(self).driven(p) == old(self).driven(p),
            forall|p: BoardPin| #[trigger] final(self).analog_set(p) == old(self).analog_set(p),
    {
        self.pin_levels.remove(pin);
    }

    /// Sets the ADC counts a pin reads, capped at full scale (1023).
    pub fn set_analog_input_level(&mut self, pin: BoardPin, counts: u16)
        ensures
            old(self).wf() ==> final(self).wf(),
            final(self).analog_set(pin) == Some(if counts > 1023 {
                1023u16
            } else {
                counts
            }),
            forall|p: BoardPin| #[trigger] final(self).mode(p) == old(self).mode(p),
            forall|p: BoardPin| #[trigger] final(self).driven(p) == old(self).driven(p),
            forall|p: BoardPin|
                p != pin ==> #[trigger] final(self).analog_set(p) == old(self).analog_set(p),
    {
        let capped: u16 = if counts > 1023 {
            1023
        } else {
            counts
        };
        self.analog_input_levels.insert(pin, capped);
    }

    /// Forgets the analog level set for a pin.
    pub fn clear_analog_input_level(&mut self, pin: BoardPin)
        ensures
            old(self).wf() ==> final(self).wf(),
            final(self).analog_set(pin) is None,
            forall|p: BoardPin| #[trigger] final(self).mode(p) == old(self).mode(p),
            forall|p: BoardPin| #[trigger] final(self).driven(p) == old(self).driven(p),
            forall|p: BoardPin|
                p != pin ==> #[trigger] final(self).analog_set(p) == old(self).analog_set(p),
    {
        self.analog_input_levels.remove(pin);
    }
}

impl Default for NullMegaBoard {
    fn default() -> (b: Self)
        ensures
            b.wf(),
            forall|pin: BoardPin|
                #[trigger] b.mode(pin) is None && b.driven(pin) is None && b.analog_set(pin) is None,
    {
        NullMegaBoard::new()
    }
}

impl MegaBoard for NullMegaBoard {
    open spec fn analog_reading(&self, pin: BoardPin) -> u16 {
        self.counts(pin)
    }

    closed spec fn pwm_duty(&self, pin: BoardPin) -> Option<u8> {
        if self.pwm_duties@.dom().contains(pin) {
            Some(self.pwm_duties@[pin])
        } else {
            None
        }
    }

    closed spec fn can_exchanges(&self) -> Seq<(u8, u8)> {
        self.can_log@
    }

    closed spec fn rtd_exchanges(&self) -> Seq<(u8, u8)> {
        self.rtd_log@
    }

    fn set_pwm_duty(&mut self, pin: BoardPin, duty: u8) {
        self.pwm_duties = Ghost(self.pwm_duties@.insert(pin, duty));
    }

    fn transfer_spi_can(&mut self, value: u8, settings: SpiSettings) -> (reply: u8) {
        self.can_log = Ghost(self.can_log@.push((value, 0u8)));
        0
    }

    fn transfer_spi_rtd(&mut self, value: u8, settings: SpiSettings) -> (reply: u8) {
        self.rtd_log = Ghost(self.rtd_log@.push((value, 0u8)));
        0
    }

    open spec fn pin_reading(&self, pin: BoardPin) -> u8 {
        self.level(pin)
    }

    open spec fn configured_mode(&self, pin: BoardPin) -> Option<PinMode> {
        self.mode(pin)
    }

    open spec fn driven_output(&self, pin: BoardPin) -> Option<u8> {
        self.driven(pin)
    }

    fn advance_time(&mut self, elapsed_cycles: u64, clock_hz: u32) {
    }

    fn read_pin(&self, pin: BoardPin) -> (r: u8)
        ensures
            r == self.level(pin),
    {
        match self.pin_levels.get(pin) {
            Some(level) => level,
            None => match self.pin_modes.get(pin) {
                Some(PinMode::InputPullup) => 1,
                _ => 0,
            },
        }
    }

    fn set_pin_mode(&mut self, pin: BoardPin, mode: PinMode)
        ensures
            old(self).wf() ==> final(self).wf(),
            final(self).mode(pin) == Some(mode),
            forall|p: BoardPin| p != pin ==> #[trigger] final(self).mode(p) == old(self).mode(p),
            forall|p: BoardPin| #[trigger] final(self).driven(p) == old(self).driven(p),
            forall|p: BoardPin| #[trigger] final(self).analog_set(p) == old(self).analog_set(p),
    {
        self.pin_modes.insert(pin, mode);
    }

    fn write_pin(&mut self, pin: BoardPin, level: u8)
        ensures
            old(self).wf() ==> final(self).wf(),
            final(self).driven(pin) == Some(level),
            forall|p: BoardPin| #[trigger] final(self).mode(p) == old(self).mode(p),
            forall|p: BoardPin| p != pin ==> #[trigger] final(self).driven(p) == old(self).driven(p),
            forall|p: BoardPin| #[trigger] final(self).analog_set(p) == old(self).analog_set(p),
    {
        self.pin_levels.insert(pin, level);
    }

    fn analog_input_counts(&self, pin: BoardPin) -> (r: u16)
        ensures
            r == self.counts(pin),
    {
        match self.analog_input_levels.get(pin) {
            Some(level) => if level > 1023 {
                1023
            } else {
                level
            },
            None => match pin {
                BoardPin::Analog(0) => 1023,
                _ => 0,
            },
        }
    }
}

/// `ADCSRA` prescaler bits to the ADC clock divisor.
pub open spec fn spec_adc_prescaler(value: u8) -> u32 {
    let ps = value & 7;
    if ps == 0 || ps == 1 {
        2
    } else if ps == 2 {
        4
    } else if ps == 3 {
        8
    } else if ps == 4 {
        16
    } else if ps == 5 {
        32
    } else if ps == 6 {
        64
    } else {
        128
    }
}

pub fn adc_prescaler(value: u8) -> (r: u32)
    ensures
        r == spec_adc_prescaler(value),
        r <= 128,
{
    let ps = value & 7;
    if ps == 0 || ps == 1 {
        2
    } else if ps == 2 {
        4
    } else if ps == 3 {
        8
    } else if ps == 4 {
        16
    } else if ps == 5 {
        32
    } else if ps == 6 {
        64
    } else {
        128
    }
}

/// The Mega pin behind bit `bit` of a `PINx` register.
pub open spec fn spec_port_pin(pin_address: usize, bit: u8) -> Option<BoardPin> {
    if false {
        None
    } else if pin_address == PINA && bit == 0 {
        Some(BoardPin::Digital(22))
    } else if pin_address == PINA && bit == 1 {
        Some(BoardPin::Digital(23))
    } else if pin_address == PINA && bit == 2 {
        Some(BoardPin::Digital(24))
    } else if pin_address == PINA && bit == 3 {
        Some(BoardPin::Digital(25))
    } else if pin_address == PINA && bit == 4 {
        Some(BoardPin::Digital(26))
    } else if pin_address == PINA && bit == 5 {
        Some(BoardPin::Digital(27))
    } else if pin_address == PINA && bit == 6 {
        Some(BoardPin::Digital(28))
    } else if pin_address == PINA && bit == 7 {
        Some(BoardPin::Digital(29))
    } else if pin_address == PINB && bit == 0 {
        Some(BoardPin::Digital(53))
    } else if pin_address == PINB && bit == 1 {
        Some(BoardPin::Digital(52))
    } else if pin_address == PINB && bit == 2 {
        Some(BoardPin::Digital(51))
    } else if pin_address == PINB && bit == 3 {
        Some(BoardPin::Digital(50))
    } else if pin_address == PINB && bit == 4 {
        Some(BoardPin::Digital(10))
    } else if pin_address == PINB && bit == 5 {
        Some(BoardPin::Digital(11))
    } else if pin_address == PINB && bit == 6 {
        Some(BoardPin::Digital(12))
    } else if pin_address == PINB && bit == 7 {
        Some(BoardPin::Digital(13))
    } else if pin_address == PINC && bit == 0 {
        Some(BoardPin::Digital(37))
    } else if pin_address == PINC && bit == 1 {
        Some(BoardPin::Digital(36))
    } else if pin_address == PINC && bit == 2 {
        Some(BoardPin::Digital(35))
    } else if pin_address == PINC && bit == 3 {
        Some(BoardPin::Digital(34))
    } else if pin_address == PINC && bit == 4 {
        Some(BoardPin::Digital(33))
    } else if pin_address == PINC && bit == 5 {
        Some(BoardPin::Digital(32))
    } else if pin_address == PINC && bit == 6 {
        Some(BoardPin::Digital(31))
    } else if pin_address == PINC && bit == 7 {
        Some(BoardPin::Digital(30))
    } else if pin_address == PIND && bit == 0 {
        Some(BoardPin::Digital(21))
    } else if pin_address == PIND && bit == 1 {
        Some(BoardPin::Digital(20))
    } else if pin_address == PIND && bit == 2 {
        Some(BoardPin::Digital(19))
    } else if pin_address == PIND && bit == 3 {
        Some(BoardPin::Digital(18))
    } else if pin_address == PIND && bit == 7 {
        Some(BoardPin::Digital(38))
    } else if pin_address == PINE && bit == 0 {
        Some(BoardPin::Digital(0))
    } else if pin_address == PINE && bit == 1 {
        Some(BoardPin::Digital(1))
    } else if pin_address == PINE && bit == 3 {
        Some(BoardPin::Digital(5))
    } else if pin_address == PINE && bit == 4 {
        Some(BoardPin::Digital(2))
    } else if pin_address == PINE && bit == 5 {
        Some(BoardPin::Digital(3))
    } else if pin_address == PINF && bit == 0 {
        Some(BoardPin::Analog(0))
    } else if pin_address == PINF && bit == 1 {
        Some(BoardPin::Analog(1))
    } else if pin_address == PINF && bit == 2 {
        Some(BoardPin::Analog(2))
    } else if pin_address == PINF && bit == 3 {
        Some(BoardPin::Analog(3))
    } else if pin_address == PINF && bit == 4 {
        Some(BoardPin::Analog(4))
    } else if pin_address == PINF && bit == 5 {
        Some(BoardPin::Analog(5))
    } else if pin_address == PINF && bit == 6 {
        Some(BoardPin::Analog(6))
    } else if pin_address == PINF && bit == 7 {
        Some(BoardPin::Analog(7))
    } else if pin_address == PING && bit == 0 {
        Some(BoardPin::Digital(41))
    } else if pin_address == PING && bit == 1 {
        Some(BoardPin::Digital(40))
    } else if pin_address == PING && bit == 2 {
        Some(BoardPin::Digital(39))
    } else if pin_address == PING && bit == 5 {
        Some(BoardPin::Digital(4))
    } else if pin_address == PINH && bit == 0 {
        Some(BoardPin::Digital(17))
    } else if pin_address == PINH && bit == 1 {
        Some(BoardPin::Digital(16))
    } else if pin_address == PINH && bit == 3 {
        Some(BoardPin::Digital(6))
    } else if pin_address == PINH && bit == 4 {
        Some(BoardPin::Digital(7))
    } else if pin_address == PINH && bit == 5 {
        Some(BoardPin::Digital(8))
    } else if pin_address == PINH && bit == 6 {
        Some(BoardPin::Digital(9))
    } else if pin_address == PINJ && bit == 0 {
        Some(BoardPin::Digital(15))
    } else if pin_address == PINJ && bit == 1 {
        Some(BoardPin::Digital(14))
    } else if pin_address == PINK && bit == 0 {
        Some(BoardPin::Analog(8))
    } else if pin_address == PINK && bit == 1 {
        Some(BoardPin::Analog(9))
    } else if pin_address == PINK && bit == 2 {
        Some(BoardPin::Analog(10))
    } else if pin_address == PINK && bit == 3 {
        Some(BoardPin::Analog(11))
    } else if pin_address == PINK && bit == 4 {
        Some(BoardPin::Analog(12))
    } else if pin_address == PINK && bit == 5 {
        Some(BoardPin::Analog(13))
    } else if pin_address == PINK && bit == 6 {
        Some(BoardPin::Analog(14))
    } else if pin_address == PINK && bit == 7 {
        Some(BoardPin::Analog(15))
    } else if pin_address == PINL && bit == 0 {
        Some(BoardPin::Digital(49))
    } else if pin_address == PINL && bit == 1 {
        Some(BoardPin::Digital(48))
    } else if pin_address == PINL && bit == 2 {
        Some(BoardPin::Digital(47))
    } else if pin_address == PINL && bit == 3 {
        Some(BoardPin::Digital(46))
    } else if pin_address == PINL && bit == 4 {
        Some(BoardPin::Digital(45))
    } else if pin_address == PINL && bit == 5 {
        Some(BoardPin::Digital(44))
    } else if pin_address == PINL && bit == 6 {
        Some(BoardPin::Digital(43))
    } else if pin_address == PINL && bit == 7 {
        Some(BoardPin::Digital(42))
    } else {
        None
    }
}

pub fn port_pin(pin_address: usize, bit_index: u8) -> (r: Option<BoardPin>)
    ensures
        r == spec_port_pin(pin_address, bit_index),
{
    if false {
        None
    } else if pin_address == PINA && bit_index == 0 {
        Some(BoardPin::Digital(22))
    } else if pin_address == PINA && bit_index == 1 {
        Some(BoardPin::Digital(23))
    } else if pin_address == PINA && bit_index == 2 {
        Some(BoardPin::Digital(24))
    } else if pin_address == PINA && bit_index == 3 {
        Some(BoardPin::Digital(25))
    } else if pin_address == PINA && bit_index == 4 {
        Some(BoardPin::Digital(26))
    } else if pin_address == PINA && bit_index == 5 {
        Some(BoardPin::Digital(27))
    } else if pin_address == PINA && bit_index == 6 {
        Some(BoardPin::Digital(28))
    } else if pin_address == PINA && bit_index == 7 {
        Some(BoardPin::Digital(29))
    } else if pin_address == PINB && bit_index == 0 {
        Some(BoardPin::Digital(53))
    } else if pin_address == PINB && bit_index == 1 {
        Some(BoardPin::Digital(52))
    } else if pin_address == PINB && bit_index == 2 {
        Some(BoardPin::Digital(51))
    } else if pin_address == PINB && bit_index == 3 {
        Some(BoardPin::Digital(50))
    } else if pin_address == PINB && bit_index == 4 {
        Some(BoardPin::Digital(10))
    } else if pin_address == PINB && bit_index == 5 {
        Some(BoardPin::Digital(11))
    } else if pin_address == PINB && bit_index == 6 {
        Some(BoardPin::Digital(12))
    } else if pin_address == PINB && bit_index == 7 {
        Some(BoardPin::Digital(13))
    } else if pin_address == PINC && bit_index == 0 {
        Some(BoardPin::Digital(37))
    } else if pin_address == PINC && bit_index == 1 {
        Some(BoardPin::Digital(36))
    } else if pin_address == PINC && bit_index == 2 {
        Some(BoardPin::Digital(35))
    } else if pin_address == PINC && bit_index == 3 {
        Some(BoardPin::Digital(34))
    } else if pin_address == PINC && bit_index == 4 {
        Some(BoardPin::Digital(33))
    } else if pin_address == PINC && bit_index == 5 {
        Some(BoardPin::Digital(32))
    } else if pin_address == PINC && bit_index == 6 {
        Some(BoardPin::Digital(31))
    } else if pin_address == PINC && bit_index == 7 {
        Some(BoardPin::Digital(30))
    } else if pin_address == PIND && bit_index == 0 {
        Some(BoardPin::Digital(21))
    } else if pin_address == PIND && bit_index == 1 {
        Some(BoardPin::Digital(20))
    } else if pin_address == PIND && bit_index == 2 {
        Some(BoardPin::Digital(19))
    } else if pin_address == PIND && bit_index == 3 {
        Some(BoardPin::Digital(18))
    } else if pin_address == PIND && bit_index == 7 {
        Some(BoardPin::Digital(38))
    } else if pin_address == PINE && bit_index == 0 {
        Some(BoardPin::Digital(0))
    } else if pin_address == PINE && bit_index == 1 {
        Some(BoardPin::Digital(1))
    } else if pin_address == PINE && bit_index == 3 {
        Some(BoardPin::Digital(5))
    } else if pin_address == PINE && bit_index == 4 {
        Some(BoardPin::Digital(2))
    } else if pin_address == PINE && bit_index == 5 {
        Some(BoardPin::Digital(3))
    } else if pin_address == PINF && bit_index == 0 {
        Some(BoardPin::Analog(0))
    } else if pin_address == PINF && bit_index == 1 {
        Some(BoardPin::Analog(1))
    } else if pin_address == PINF && bit_index == 2 {
        Some(BoardPin::Analog(2))
    } else if pin_address == PINF && bit_index == 3 {
        Some(BoardPin::Analog(3))
    } else if pin_address == PINF && bit_index == 4 {
        Some(BoardPin::Analog(4))
    } else if pin_address == PINF && bit_index == 5 {
        Some(BoardPin::Analog(5))
    } else if pin_address == PINF && bit_index == 6 {
        Some(BoardPin::Analog(6))
    } else if pin_address == PINF && bit_index == 7 {
        Some(BoardPin::Analog(7))
    } else if pin_address == PING && bit_index == 0 {
        Some(BoardPin::Digital(41))
    } else if pin_address == PING && bit_index == 1 {
        Some(BoardPin::Digital(40))
    } else if pin_address == PING && bit_index == 2 {
        Some(BoardPin::Digital(39))
    } else if pin_address == PING && bit_index == 5 {
        Some(BoardPin::Digital(4))
    } else if pin_address == PINH && bit_index == 0 {
        Some(BoardPin::Digital(17))
    } else if pin_address == PINH && bit_index == 1 {
        Some(BoardPin::Digital(16))
    } else if pin_address == PINH && bit_index == 3 {
        Some(BoardPin::Digital(6))
    } else if pin_address == PINH && bit_index == 4 {
        Some(BoardPin::Digital(7))
    } else if pin_address == PINH && bit_index == 5 {
        Some(BoardPin::Digital(8))
    } else if pin_address == PINH && bit_index == 6 {
        Some(BoardPin::Digital(9))
    } else if pin_address == PINJ && bit_index == 0 {
        Some(BoardPin::Digital(15))
    } else if pin_address == PINJ && bit_index == 1 {
        Some(BoardPin::Digital(14))
    } else if pin_address == PINK && bit_index == 0 {
        Some(BoardPin::Analog(8))
    } else if pin_address == PINK && bit_index == 1 {
        Some(BoardPin::Analog(9))
    } else if pin_address == PINK && bit_index == 2 {
        Some(BoardPin::Analog(10))
    } else if pin_address == PINK && bit_index == 3 {
        Some(BoardPin::Analog(11))
    } else if pin_address == PINK && bit_index == 4 {
        Some(BoardPin::Analog(12))
    } else if pin_address == PINK && bit_index == 5 {
        Some(BoardPin::Analog(13))
    } else if pin_address == PINK && bit_index == 6 {
        Some(BoardPin::Analog(14))
    } else if pin_address == PINK && bit_index == 7 {
        Some(BoardPin::Analog(15))
    } else if pin_address == PINL && bit_index == 0 {
        Some(BoardPin::Digital(49))
    } else if pin_address == PINL && bit_index == 1 {
        Some(BoardPin::Digital(48))
    } else if pin_address == PINL && bit_index == 2 {
        Some(BoardPin::Digital(47))
    } else if pin_address == PINL && bit_index == 3 {
        Some(BoardPin::Digital(46))
    } else if pin_address == PINL && bit_index == 4 {
        Some(BoardPin::Digital(45))
    } else if pin_address == PINL && bit_index == 5 {
        Some(BoardPin::Digital(44))
    } else if pin_address == PINL && bit_index == 6 {
        Some(BoardPin::Digital(43))
    } else if pin_address == PINL && bit_index == 7 {
        Some(BoardPin::Digital(42))
    } else {
        None
    }
}

/// The I/O side of an ATmega2560 at a given clock.
pub struct Atmega2560Bus<B: MegaBoard> {
    pub board: B,
    pub clock_hz: u32,
    pub synced_cycles: u64,
    pub timer0: Timer0State,
    pub serial0: SerialState,
    pub adc: AdcState,
    pub spi_transaction_active_can: bool,
    pub spi_transaction_active_rtd: bool,
    pub eeprom: Vec<u8>,
    pub eeprom_master_write_enabled: bool,
}

/// Every part of the bus but the board unchanged.
pub open spec fn mega_same<B: MegaBoard>(a: Atmega2560Bus<B>, b: Atmega2560Bus<B>) -> bool {
    &&& b.clock_hz == a.clock_hz
    &&& b.synced_cycles == a.synced_cycles
    &&& b.timer0 == a.timer0
    &&& serial_same(a.serial0, b.serial0)
    &&& b.adc == a.adc
    &&& b.spi_transaction_active_can == a.spi_transaction_active_can
    &&& b.spi_transaction_active_rtd == a.spi_transaction_active_rtd
    &&& b.eeprom@ == a.eeprom@
    &&& b.eeprom_master_write_enabled == a.eeprom_master_write_enabled
}

/// The pin behind `bit` was configured from `DDRx`/`PORTx` (`ddr`, `port`):
/// its mode from the two bits, and as an output the `PORTx` level driven.
pub open spec fn mega_bit_applied<B: MegaBoard>(b0: B, b1: B, pin: BoardPin, ddr: u8, port: u8, bit: u8) -> bool {
    &&& b1.configured_mode(pin) == Some(port_bit_mode(ddr, port, bit))
    &&& b1.driven_output(pin) == (if ddr & (1u8 << bit) != 0 {
        Some(port_bit_level(port, bit))
    } else {
        b0.driven_output(pin)
    })
}

/// The first `n` bits of the port at `pin_address` have driven the board
/// from `ddr` and `port`; the mode and level of every other pin, the PWM
/// duties and the SPI exchanges are as they were.
pub open spec fn mega_port_synced<B: MegaBoard>(b0: B, b1: B, pin_address: usize, ddr: u8, port: u8, n: u8) -> bool {
    &&& forall|p: BoardPin| #[trigger] b1.pwm_duty(p) == b0.pwm_duty(p)
    &&& b1.can_exchanges() == b0.can_exchanges()
    &&& b1.rtd_exchanges() == b0.rtd_exchanges()
    &&& forall|bit: u8|
        bit < n && #[trigger] spec_port_pin(pin_address, bit) is Some ==> mega_bit_applied(
            b0,
            b1,
            spec_port_pin(pin_address, bit).unwrap(),
            ddr,
            port,
            bit,
        )
    &&& forall|pin: BoardPin|
        #![trigger b1.configured_mode(pin)]
        #![trigger b1.driven_output(pin)]
        (forall|bit: u8| bit < n ==> spec_port_pin(pin_address, bit) != Some(pin)) ==> {
            &&& b1.configured_mode(pin) == b0.configured_mode(pin)
            &&& b1.driven_output(pin) == b0.driven_output(pin)
        }
}

/// The `PINx` address of the port that a `DDRx` (one past it) or `PORTx`
/// (two past it) register belongs to.
pub open spec fn mega_port_base(address: usize) -> usize {
    if address == DDRA || address == DDRB || address == DDRC || address == DDRD || address == DDRE
        || address == DDRF || address == DDRG || address == DDRH || address == DDRJ || address
        == DDRK || address == DDRL {
        (address - 1) as usize
    } else {
        (address - 2) as usize
    }
}

/// Every port in `done` has driven the board from its `DDRx`/`PORTx` in
/// `d` (the registers one and two past its `PINx`); the mode and level of
/// every pin on none of them are as they were.
pub open spec fn mega_ports_synced<B: MegaBoard>(b0: B, b1: B, d: Seq<u8>, done: Seq<usize>) -> bool {
    &&& forall|a: usize, bit: u8|
        done.contains(a) && #[trigger] spec_port_pin(a, bit) is Some ==> mega_bit_applied(
            b0,
            b1,
            spec_port_pin(a, bit).unwrap(),
            d[a + 1],
            d[a + 2],
            bit,
        )
    &&& forall|pin: BoardPin|
        #![trigger b1.configured_mode(pin)]
        #![trigger b1.driven_output(pin)]
        (forall|a: usize, bit: u8| done.contains(a) ==> spec_port_pin(a, bit) != Some(pin)) ==> {
            &&& b1.configured_mode(pin) == b0.configured_mode(pin)
            &&& b1.driven_output(pin) == b0.driven_output(pin)
        }
}

/// The `PINx` addresses of the eleven GPIO ports, A to L.
pub open spec fn mega_port_addresses() -> Seq<usize> {
    seq![PINA, PINB, PINC, PIND, PINE, PINF, PING, PINH, PINJ, PINK, PINL]
}

/// Driving one more port keeps what the ports driven before did.
proof fn lemma_mega_add_port<B: MegaBoard>(b0: B, b1: B, b2: B, d: Seq<u8>, done: Seq<usize>, port: usize)
    requires
        mega_ports_synced(b0, b1, d, done),
        !done.contains(port),
        mega_port_synced(b1, b2, port, d[port + 1], d[port + 2], 8),
    ensures
        mega_ports_synced(b0, b2, d, done.push(port)),
{
    let next = done.push(port);
    assert forall|a: usize, bit: u8|
        next.contains(a) && #[trigger] spec_port_pin(a, bit) is Some implies mega_bit_applied(
        b0,
        b2,
        spec_port_pin(a, bit).unwrap(),
        d[a + 1],
        d[a + 2],
        bit,
    ) by {
        let pin = spec_port_pin(a, bit).unwrap();
        if a == port {
            assert forall|a2: usize, bit2: u8| done.contains(a2) implies spec_port_pin(a2, bit2) != Some(pin) by {
                if spec_port_pin(a2, bit2) == Some(pin) {
                    lemma_mega_ports_disjoint(a2, bit2, a, bit);
                }
            }
            assert(b1.driven_output(pin) == b0.driven_output(pin));
        } else {
            assert(done.contains(a)) by {
                let k = choose|k: int| 0 <= k < next.len() && next[k] == a;
                assert(k < done.len());
                assert(done[k] == a);
            }
            assert forall|bit2: u8| bit2 < 8 implies spec_port_pin(port, bit2) != Some(pin) by {
                if spec_port_pin(port, bit2) == Some(pin) {
                    lemma_mega_ports_disjoint(port, bit2, a, bit);
                }
            }
            assert(b2.configured_mode(pin) == b1.configured_mode(pin));
        }
    }
    assert forall|pin: BoardPin|
        #![trigger b2.configured_mode(pin)]
        #![trigger b2.driven_output(pin)]
        (forall|a: usize, bit: u8| next.contains(a) ==> spec_port_pin(a, bit) != Some(pin)) implies {
            &&& b2.configured_mode(pin) == b0.configured_mode(pin)
            &&& b2.driven_output(pin) == b0.driven_output(pin)
        } by {
        assert forall|a: usize, bit: u8| done.contains(a) implies spec_port_pin(a, bit) != Some(pin) by {
            assert(next.contains(a)) by {
                let k = choose|k: int| 0 <= k < done.len() && done[k] == a;
                assert(next[k] == a);
            }
        }
        assert(next.contains(port)) by {
            assert(next[done.len() as int] == port);
        }
        assert forall|bit: u8| bit < 8 implies spec_port_pin(port, bit) != Some(pin) by {}
        assert(b1.configured_mode(pin) == b0.configured_mode(pin));
    }
}

/// Bit `bit` of the `PINx` register at `pin_address`: 1 when the pin
/// behind it reads high, else 0 (and 0 for a bit with no pin).
pub open spec fn mega_pin_bit<B: MegaBoard>(board: B, pin_address: usize, bit: u8) -> u8 {
    match spec_port_pin(pin_address, bit) {
        Some(pin) => if board.pin_reading(pin) != 0 {
            1u8
        } else {
            0u8
        },
        None => 0u8,
    }
}

/// Two bits of one port never name the same pin.
pub proof fn lemma_mega_port_pin_injective(pin_address: usize, a: u8, b: u8)
    requires
        spec_port_pin(pin_address, a) is Some,
        spec_port_pin(pin_address, a) == spec_port_pin(pin_address, b),
    ensures
        a == b,
{
}

/// No pin sits on two ports.
pub proof fn lemma_mega_ports_disjoint(pa: usize, a: u8, pb: usize, b: u8)
    requires
        spec_port_pin(pa, a) is Some,
        spec_port_pin(pa, a) == spec_port_pin(pb, b),
    ensures
        pa == pb,
{
}

/// The board's pin modes, driven levels and PWM duties are as they were.
pub open spec fn mega_board_pins_kept<B: MegaBoard>(b0: B, b1: B) -> bool {
    &&& forall|p: BoardPin| #[trigger] b1.configured_mode(p) == b0.configured_mode(p)
    &&& forall|p: BoardPin| #[trigger] b1.driven_output(p) == b0.driven_output(p)
    &&& forall|p: BoardPin| #[trigger] b1.pwm_duty(p) == b0.pwm_duty(p)
}

/// The duties of the PWM pins come from Timer 5's compare registers in `d`
/// (`OCR5AL` on D46, `OCR5BL` on D45, `OCR5CL` on D44); every other pin's
/// duty is as it was.
pub open spec fn mega_pwm_duties<B: MegaBoard>(b0: B, b1: B, d: Seq<u8>) -> bool {
    &&& b1.pwm_duty(BoardPin::Digital(46)) == Some(d[OCR5AL as int])
    &&& b1.pwm_duty(BoardPin::Digital(45)) == Some(d[OCR5BL as int])
    &&& b1.pwm_duty(BoardPin::Digital(44)) == Some(d[OCR5CL as int])
    &&& forall|p: BoardPin|
        p != BoardPin::Digital(46) && p != BoardPin::Digital(45) && p != BoardPin::Digital(44)
            ==> #[trigger] b1.pwm_duty(p) == b0.pwm_duty(p)
}

/// Timer 5's compare registers drive the PWM pins: `OCR5AL` on D46,
/// `OCR5BL` on D45, `OCR5CL` on D44. Nothing else on the board changes.
pub open spec fn mega_pwm_synced<B: MegaBoard>(b0: B, b1: B, d: Seq<u8>) -> bool {
    &&& mega_pwm_duties(b0, b1, d)
    &&& forall|p: BoardPin| #[trigger] b1.configured_mode(p) == b0.configured_mode(p)
    &&& forall|p: BoardPin| #[trigger] b1.driven_output(p) == b0.driven_output(p)
    &&& b1.can_exchanges() == b0.can_exchanges()
    &&& b1.rtd_exchanges() == b0.rtd_exchanges()
}

/// Bringing timer and USART forward to `target` cycles would not overflow.
pub open spec fn mega_sync_fits<B: MegaBoard>(b: Atmega2560Bus<B>, d: Seq<u8>, target: u64) -> bool {
    target > b.synced_cycles ==> {
        let delta = ((target - b.synced_cycles) as u32) as int;
        &&& spec_timer0_prescaler(d[TCCR0B as int]) is Some ==> b.timer0.cycle_remainder + delta
            <= u32::MAX
        &&& b.serial0.tx_busy_byte is Some ==> b.serial0.tx_cycles_remaining - delta >= i64::MIN
    }
}

/// The ADC channel `ADMUX`/`ADCSRB` select: `MUX5` adds 8 to `MUX2..0`.
pub open spec fn spec_adc_channel(adcsrb: u8, admux: u8) -> int {
    ((adcsrb & MUX5) >> 3u8) * 8 + (admux & 7)
}

/// The converted channel follows the datasheet: `MUX2..0` (the low three
/// bits of `ADMUX`) pick the channel within a bank of eight and `MUX5` (bit
/// 3 of `ADCSRB`) picks the bank, so channels 0 to 15 each have their own
/// selection.
pub proof fn law_adc_channel_select(adcsrb: u8, admux: u8)
    ensures
        0 <= spec_adc_channel(adcsrb, admux) < 16,
        spec_adc_channel(adcsrb, admux) % 8 == admux % 8,
        spec_adc_channel(adcsrb, admux) / 8 == (if adcsrb & 0x08 == 0 { 0int } else { 1int }),
{
    let hi = (adcsrb & MUX5) >> 3u8;
    assert(hi == (if adcsrb & 0x08 == 0 { 0u8 } else { 1u8 })) by (bit_vector)
        requires
            hi == (adcsrb & 0x08) >> 3u8,
    ;
    assert((admux & 7) == admux % 8) by (bit_vector);
}

/// Two selections convert the same channel only when they agree on `MUX5`
/// and on `MUX2..0`.
pub proof fn law_adc_channels_distinct(adcsrb1: u8, admux1: u8, adcsrb2: u8, admux2: u8)
    ensures
        spec_adc_channel(adcsrb1, admux1) == spec_adc_channel(adcsrb2, admux2) <==> (admux1 % 8 == admux2 % 8
            && (adcsrb1 & 0x08 == 0) == (adcsrb2 & 0x08 == 0)),
{
    law_adc_channel_select(adcsrb1, admux1);
    law_adc_channel_select(adcsrb2, admux2);
    let c1 = spec_adc_channel(adcsrb1, admux1);
    let c2 = spec_adc_channel(adcsrb2, admux2);
    assert(c1 == 8 * (c1 / 8) + c1 % 8);
    assert(c2 == 8 * (c2 / 8) + c2 % 8);
}

/// The bus and data space after catching up to `target` clock cycles:
/// Timer/Counter0, USART0 and the ADC advance by the elapsed cycles (cut to
/// 32 bits); a finished conversion stores the board's reading of the
/// selected channel, clears `ADSC`, sets `ADIF` and, under `ADIE`, makes the
/// interrupt pending.
pub open spec fn mega_sync<B: MegaBoard>(
    b0: Atmega2560Bus<B>,
    d0: Seq<u8>,
    target: u64,
    b1: Atmega2560Bus<B>,
    d1: Seq<u8>,
) -> bool {
    if target <= b0.synced_cycles {
        b1 == b0 && d1 == d0
    } else {
        let delta = (target - b0.synced_cycles) as u32;
        let converting = b0.adc.cycles_remaining > 0;
        let done = converting && b0.adc.cycles_remaining - delta <= 0;
        &&& spec_timer_advance(
            b0.timer0,
            delta,
            spec_timer0_prescaler(d0[TCCR0B as int]),
            d0[TCNT0 as int],
            d0[TIFR0 as int],
            d0[TIMSK0 as int],
            TOV0,
            TOIE0,
            b1.timer0,
            d1[TCNT0 as int],
            d1[TIFR0 as int],
        )
        &&& spec_serial_advance(
            b0.serial0,
            delta,
            d0[UCSR0A as int],
            d0[UCSR0B as int],
            d0[UDR0 as int],
            UDRE0,
            TXC0,
            RXC0,
            RXEN0,
            b1.serial0,
            d1[UCSR0A as int],
            d1[UDR0 as int],
        )
        &&& b1.adc.cycles_remaining == (if converting {
            b0.adc.cycles_remaining - delta
        } else {
            b0.adc.cycles_remaining as int
        })
        &&& if done {
            let reading = b1.board.analog_reading(
                BoardPin::Analog(spec_adc_channel(d0[ADCSRB as int], d0[ADMUX as int]) as u8),
            );
            &&& d1[ADCL as int] == (reading & 0x00FF) as u8
            &&& d1[ADCH as int] == ((reading >> 8u16) & 0x03) as u8
            &&& d1[ADCSRA as int] == (d0[ADCSRA as int] & !ADSC) | ADIF
            &&& b1.adc.interrupt_pending == (b0.adc.interrupt_pending || (d0[ADCSRA as int]
                & ADIE) != 0)
        } else {
            &&& d1[ADCL as int] == d0[ADCL as int]
            &&& d1[ADCH as int] == d0[ADCH as int]
            &&& d1[ADCSRA as int] == d0[ADCSRA as int]
            &&& b1.adc.interrupt_pending == b0.adc.interrupt_pending
        }
        &&& data_same_except(
            d0,
            d1,
            set![
                TCNT0 as int,
                TIFR0 as int,
                UCSR0A as int,
                UDR0 as int,
                ADCL as int,
                ADCH as int,
                ADCSRA as int,
            ],
        )
        &&& b1.synced_cycles == target
        &&& b1.clock_hz == b0.clock_hz
        &&& b1.spi_transaction_active_can == b0.spi_transaction_active_can
        &&& b1.spi_transaction_active_rtd == b0.spi_transaction_active_rtd
        &&& b1.eeprom@ == b0.eeprom@
        &&& b1.eeprom_master_write_enabled == b0.eeprom_master_write_enabled
    }
}

/// The eleven `PINx` registers.
pub open spec fn mega_pin_reg(address: usize) -> bool {
    address == PINA || address == PINB || address == PINC || address == PIND || address == PINE
        || address == PINF || address == PING || address == PINH || address == PINJ || address
        == PINK || address == PINL
}

/// `DDRx` and `PORTx` of the eleven ports (each follows its `PINx`).
pub open spec fn mega_port_config_reg(address: usize) -> bool {
    (address >= 1 && mega_pin_reg((address - 1) as usize)) || (address >= 2 && mega_pin_reg(
        (address - 2) as usize,
    ))
}

/// Timer5 output-compare registers that drive PWM on D44..D46.
pub open spec fn mega_pwm_reg(address: usize) -> bool {
    address == OCR5AL || address == OCR5AH || address == OCR5BL || address == OCR5BH || address
        == OCR5CL || address == OCR5CH
}

/// Registers that keep a written byte as it is.
pub open spec fn mega_plain_reg(address: usize) -> bool {
    address == UCSR0C || address == UBRR0L || address == UBRR0H || address == SPCR || address
        == OCR0A || address == OCR0B || address == TCCR0A || address == TCCR0B || address == TCNT0
        || address == TIMSK0 || address == ADCL || address == ADCH || address == ADMUX || address
        == ADCSRB || address == DIDR0 || address == DIDR2 || address == EEDR || address == EEARL
        || address == EEARH
}

/// Registers a read returns as they are.
pub open spec fn mega_readable_reg(address: usize) -> bool {
    mega_port_config_reg(address) || mega_pwm_reg(address) || address == TIFR0 || address
        == TCCR0A || address == TCCR0B || address == TCNT0 || address == OCR0A || address == OCR0B
        || address == SPCR || address == SPSR || address == TIMSK0 || address == UCSR0A || address
        == UCSR0B || address == UCSR0C || address == UBRR0L || address == UBRR0H || address == EECR
        || address == EEDR || address == EEARL || address == EEARH || address == ADCL || address
        == ADCH || address == ADCSRA || address == ADCSRB || address == ADMUX || address == DIDR0
        || address == DIDR2
}

/// `UCSR0A` after a write: `U2X0` is taken from the value and `TXC0` ends up
/// clear.
pub open spec fn mega_ucsr0a_write(current: u8, value: u8) -> u8 {
    let base = (current & !(U2X0 | TXC0)) | (value & U2X0);
    if (value & TXC0) == 0 {
        base | (TXC0 & base)
    } else {
        base
    }
}

/// The EEPROM address in `EEARH:EEARL` (12 bits).
pub open spec fn spec_eeprom_address(d: Seq<u8>) -> int {
    (d[EEARL as int] as int) + ((d[EEARH as int] & 0x0F) as int) * 256
}

/// The ADC state and `ADCSRA` after a write of `ADCSRA`.
pub open spec fn mega_adcsra_write<B: MegaBoard>(
    b0: Atmega2560Bus<B>,
    d0: Seq<u8>,
    value: u8,
    b1: Atmega2560Bus<B>,
    d1: Seq<u8>,
) -> bool {
    let merged = value | (d0[ADCSRA as int] & ADIF);
    let written = if (value & ADIF) != 0 {
        merged & !ADIF
    } else {
        merged
    };
    let pending = if (value & ADIF) != 0 {
        false
    } else {
        b0.adc.interrupt_pending
    };
    &&& b1.board == b0.board
    &&& b1.clock_hz == b0.clock_hz && b1.synced_cycles == b0.synced_cycles
    &&& b1.timer0 == b0.timer0
    &&& serial_same(b0.serial0, b1.serial0)
    &&& b1.spi_transaction_active_can == b0.spi_transaction_active_can
    &&& b1.spi_transaction_active_rtd == b0.spi_transaction_active_rtd
    &&& b1.eeprom@ == b0.eeprom@
    &&& b1.eeprom_master_write_enabled == b0.eeprom_master_write_enabled
    &&& if (written & ADEN) == 0 {
        &&& d1 == d0.update(ADCSRA as int, written & !(ADSC | ADIF))
        &&& b1.adc.cycles_remaining == 0 && !b1.adc.interrupt_pending
    } else if (value & ADSC) != 0 && b0.adc.cycles_remaining <= 0 {
        &&& d1 == d0.update(ADCSRA as int, written | ADSC)
        &&& b1.adc.cycles_remaining == 13 * spec_adc_prescaler(written & ADPS_MASK)
        &&& !b1.adc.interrupt_pending
    } else {
        &&& d1 == d0.update(ADCSRA as int, written)
        &&& b1.adc.cycles_remaining == b0.adc.cycles_remaining
        &&& b1.adc.interrupt_pending == pending
    }
}

/// The EEPROM and its registers after a write of `EECR`: `EERE` reads the
/// addressed byte into `EEDR` (0xFF past the end); `EEMPE` arms a write;
/// `EEPE` while armed stores `EEDR` at the address and disarms.
pub open spec fn mega_eecr_write<B: MegaBoard>(
    b0: Atmega2560Bus<B>,
    d0: Seq<u8>,
    value: u8,
    b1: Atmega2560Bus<B>,
    d1: Seq<u8>,
) -> bool {
    let address = spec_eeprom_address(d0);
    let in_range = address < b0.eeprom@.len();
    let control = value & (EERE | EEPE | EEMPE);
    let eedr = if (value & EERE) != 0 {
        if in_range {
            b0.eeprom@[address]
        } else {
            0xFFu8
        }
    } else {
        d0[EEDR as int]
    };
    let after_read = if (value & EERE) != 0 {
        control & !EERE
    } else {
        control
    };
    let armed = b0.eeprom_master_write_enabled || (value & EEMPE) != 0;
    let writes = (value & EEPE) != 0 && armed;
    &&& b1.board == b0.board
    &&& b1.clock_hz == b0.clock_hz && b1.synced_cycles == b0.synced_cycles
    &&& b1.timer0 == b0.timer0
    &&& serial_same(b0.serial0, b1.serial0)
    &&& b1.adc == b0.adc
    &&& b1.spi_transaction_active_can == b0.spi_transaction_active_can
    &&& b1.spi_transaction_active_rtd == b0.spi_transaction_active_rtd
    &&& d1 == d0.update(
        EECR as int,
        if writes {
            after_read & !(EEPE | EEMPE)
        } else {
            after_read
        },
    ).update(EEDR as int, eedr)
    &&& b1.eeprom@ == (if writes && in_range {
        b0.eeprom@.update(address, eedr)
    } else {
        b0.eeprom@
    })
    &&& b1.eeprom_master_write_enabled == (armed && !writes)
}

/// A write of `value` to I/O address `address` once the bus is in sync.
pub open spec fn mega_write_register<B: MegaBoard>(
    b0: Atmega2560Bus<B>,
    d0: Seq<u8>,
    address: usize,
    value: u8,
    b1: Atmega2560Bus<B>,
    d1: Seq<u8>,
    handled: bool,
) -> bool {
    if mega_port_config_reg(address) {
        let base = mega_port_base(address);
        &&& handled && d1 == d0.update(address as int, value) && mega_same(b0, b1)
        &&& mega_port_synced(b0.board, b1.board, base, d1[base + 1], d1[base + 2], 8)
    } else if mega_pwm_reg(address) {
        &&& handled && d1 == d0.update(address as int, value) && mega_same(b0, b1)
        &&& mega_pwm_synced(b0.board, b1.board, d1)
    } else if address == TIFR0 {
        let flags = d0[TIFR0 as int] & !value;
        &&& handled
        &&& d1 == d0.update(TIFR0 as int, flags)
        &&& b1.timer0.cycle_remainder == b0.timer0.cycle_remainder
        &&& b1.timer0.interrupt_pending == (if (flags & TOV0) == 0 {
            false
        } else {
            b0.timer0.interrupt_pending
        })
        &&& b1.clock_hz == b0.clock_hz && b1.synced_cycles == b0.synced_cycles
        &&& serial_same(b0.serial0, b1.serial0)
        &&& b1.adc == b0.adc
        &&& b1.spi_transaction_active_can == b0.spi_transaction_active_can
        &&& b1.spi_transaction_active_rtd == b0.spi_transaction_active_rtd
        &&& b1.eeprom@ == b0.eeprom@
        &&& b1.eeprom_master_write_enabled == b0.eeprom_master_write_enabled
        &&& b1.board == b0.board
    } else if address == UCSR0A {
        handled && d1 == d0.update(UCSR0A as int, mega_ucsr0a_write(d0[UCSR0A as int], value))
            && mega_same(b0, b1) && b1.board == b0.board
    } else if address == UCSR0B {
        let d_mid = d0.update(UCSR0B as int, value);
        &&& handled
        &&& b1.board == b0.board
        &&& b1.clock_hz == b0.clock_hz && b1.synced_cycles == b0.synced_cycles
        &&& b1.timer0 == b0.timer0
        &&& b1.adc == b0.adc
        &&& b1.spi_transaction_active_can == b0.spi_transaction_active_can
        &&& b1.spi_transaction_active_rtd == b0.spi_transaction_active_rtd
        &&& b1.eeprom@ == b0.eeprom@
        &&& b1.eeprom_master_write_enabled == b0.eeprom_master_write_enabled
        &&& if (value & RXEN0) == 0 {
            d1 == d_mid.update(UCSR0A as int, d_mid[UCSR0A as int] & !RXC0) && serial_same(
                b0.serial0,
                b1.serial0,
            )
        } else {
            &&& data_same_except(d_mid, d1, set![UCSR0A as int, UDR0 as int])
            &&& spec_rx_latch(
                b0.serial0.rx_queue@,
                d_mid[UCSR0A as int],
                value,
                d_mid[UDR0 as int],
                RXC0,
                RXEN0,
                b1.serial0.rx_queue@,
                d1[UCSR0A as int],
                d1[UDR0 as int],
            )
            &&& b1.serial0.tx_log@ == b0.serial0.tx_log@
            &&& b1.serial0.tx_busy_byte == b0.serial0.tx_busy_byte
            &&& b1.serial0.tx_cycles_remaining == b0.serial0.tx_cycles_remaining
        }
    } else if mega_plain_reg(address) {
        handled && d1 == d0.update(address as int, value) && mega_same(b0, b1) && b1.board
            == b0.board
    } else if address == SPSR {
        handled && d1 == d0.update(
            SPSR as int,
            (d0[SPSR as int] & (SPIF | WCOL)) | (value & SPI2X),
        ) && mega_same(b0, b1) && b1.board == b0.board
    } else if address == UDR0 {
        let ubrr = (d0[UBRR0L as int] as u16) | (((d0[UBRR0H as int] as u16) & 0x0F) << 8u16);
        &&& handled
        &&& data_same_except(d0, d1, set![UDR0 as int, UCSR0A as int])
        &&& d1[UDR0 as int] == value
        &&& spec_serial_write_udr(
            b0.serial0,
            value,
            b0.clock_hz,
            ubrr,
            (d0[UCSR0A as int] & U2X0) != 0,
            (d0[UCSR0B as int] & TXEN0) != 0,
            d0[UCSR0A as int],
            UDRE0,
            TXC0,
            b1.serial0,
            d1[UCSR0A as int],
        )
        &&& b1.clock_hz == b0.clock_hz && b1.synced_cycles == b0.synced_cycles
        &&& b1.timer0 == b0.timer0
        &&& b1.adc == b0.adc
        &&& b1.spi_transaction_active_can == b0.spi_transaction_active_can
        &&& b1.spi_transaction_active_rtd == b0.spi_transaction_active_rtd
        &&& b1.eeprom@ == b0.eeprom@
        &&& b1.eeprom_master_write_enabled == b0.eeprom_master_write_enabled
        &&& b1.board == b0.board
    } else if address == SPDR {
        let enabled = (d0[SPCR as int] & (SPE | MSTR)) == (SPE | MSTR);
        &&& handled
        &&& b1.clock_hz == b0.clock_hz && b1.synced_cycles == b0.synced_cycles
        &&& b1.timer0 == b0.timer0
        &&& serial_same(b0.serial0, b1.serial0)
        &&& b1.adc == b0.adc
        &&& b1.eeprom@ == b0.eeprom@
        &&& b1.eeprom_master_write_enabled == b0.eeprom_master_write_enabled
        &&& if enabled {
            let cs_can = b0.board.pin_reading(BoardPin::Digital(26)) == 0;
            let cs_rtd = b0.board.pin_reading(BoardPin::Digital(27)) == 0;
            &&& data_same_except(d0, d1, set![SPDR as int, SPSR as int])
            &&& d1[SPSR as int] == d0[SPSR as int] | SPIF
            &&& mega_board_pins_kept(b0.board, b1.board)
            &&& if cs_can {
                &&& b1.board.can_exchanges() == b0.board.can_exchanges().push((value, d1[SPDR as int]))
                &&& b1.board.rtd_exchanges() == b0.board.rtd_exchanges()
                &&& b1.spi_transaction_active_can
                &&& b1.spi_transaction_active_rtd == b0.spi_transaction_active_rtd
            } else if cs_rtd {
                &&& b1.board.rtd_exchanges() == b0.board.rtd_exchanges().push((value, d1[SPDR as int]))
                &&& b1.board.can_exchanges() == b0.board.can_exchanges()
                &&& b1.spi_transaction_active_rtd
                &&& b1.spi_transaction_active_can == b0.spi_transaction_active_can
            } else {
                &&& d1[SPDR as int] == 0
                &&& b1.board.can_exchanges() == b0.board.can_exchanges()
                &&& b1.board.rtd_exchanges() == b0.board.rtd_exchanges()
                &&& b1.spi_transaction_active_can == b0.spi_transaction_active_can
                &&& b1.spi_transaction_active_rtd == b0.spi_transaction_active_rtd
            }
        } else {
            &&& d1 == d0.update(SPDR as int, value)
            &&& b1.spi_transaction_active_can == b0.spi_transaction_active_can
            &&& b1.spi_transaction_active_rtd == b0.spi_transaction_active_rtd
            &&& b1.board == b0.board
        }
    } else if address == ADCSRA {
        handled && mega_adcsra_write(b0, d0, value, b1, d1)
    } else if address == EECR {
        handled && mega_eecr_write(b0, d0, value, b1, d1)
    } else {
        !handled && d1 == d0 && mega_same(b0, b1) && b1.board == b0.board
    }
}

/// A read of I/O address `address` once the bus is in sync.
pub open spec fn mega_read_register<B: MegaBoard>(
    b0: Atmega2560Bus<B>,
    d0: Seq<u8>,
    address: usize,
    b1: Atmega2560Bus<B>,
    d1: Seq<u8>,
    r: Option<u8>,
) -> bool {
    if mega_pin_reg(address) {
        &&& r matches Some(v) && forall|bit: u8|
            bit < 8 ==> #[trigger] bit_of(v, bit) == mega_pin_bit(b0.board, address, bit)
        &&& d1 == d0 && mega_same(b0, b1) && b1.board == b0.board
    } else if address == UDR0 {
        &&& r == Some(d0[UDR0 as int])
        &&& data_same_except(d0, d1, set![UCSR0A as int, UDR0 as int])
        &&& spec_rx_latch(
            b0.serial0.rx_queue@,
            d0[UCSR0A as int] & !RXC0,
            d0[UCSR0B as int],
            d0[UDR0 as int],
            RXC0,
            RXEN0,
            b1.serial0.rx_queue@,
            d1[UCSR0A as int],
            d1[UDR0 as int],
        )
        &&& b1.serial0.tx_log@ == b0.serial0.tx_log@
        &&& b1.serial0.tx_busy_byte == b0.serial0.tx_busy_byte
        &&& b1.serial0.tx_cycles_remaining == b0.serial0.tx_cycles_remaining
        &&& b1.clock_hz == b0.clock_hz && b1.synced_cycles == b0.synced_cycles
        &&& b1.timer0 == b0.timer0
        &&& b1.adc == b0.adc
        &&& b1.spi_transaction_active_can == b0.spi_transaction_active_can
        &&& b1.spi_transaction_active_rtd == b0.spi_transaction_active_rtd
        &&& b1.eeprom@ == b0.eeprom@
        &&& b1.eeprom_master_write_enabled == b0.eeprom_master_write_enabled
        &&& b1.board == b0.board
    } else if address == SPDR {
        &&& r == Some(d0[SPDR as int])
        &&& d1 == d0.update(SPSR as int, d0[SPSR as int] & !(SPIF | WCOL))
        &&& mega_same(b0, b1) && b1.board == b0.board
    } else if mega_readable_reg(address) {
        r == Some(d0[address as int]) && d1 == d0 && mega_same(b0, b1) && b1.board == b0.board
    } else {
        r is None && d1 == d0 && mega_same(b0, b1) && b1.board == b0.board
    }
}

/// The interrupt the bus raises once in sync, by priority: timer overflow,
/// receive complete, data register empty, transmit complete, ADC.
pub open spec fn mega_pending_interrupt<B: MegaBoard>(
    b0: Atmega2560Bus<B>,
    d: Seq<u8>,
    b1: Atmega2560Bus<B>,
    r: Option<u8>,
) -> bool {
    let ucsra = d[UCSR0A as int];
    let ucsrb = d[UCSR0B as int];
    &&& b1.board == b0.board
    &&& b1.clock_hz == b0.clock_hz && b1.synced_cycles == b0.synced_cycles
    &&& b1.timer0.cycle_remainder == b0.timer0.cycle_remainder
    &&& serial_same(b0.serial0, b1.serial0)
    &&& b1.adc.cycles_remaining == b0.adc.cycles_remaining
    &&& b1.spi_transaction_active_can == b0.spi_transaction_active_can
    &&& b1.spi_transaction_active_rtd == b0.spi_transaction_active_rtd
    &&& b1.eeprom@ == b0.eeprom@
    &&& b1.eeprom_master_write_enabled == b0.eeprom_master_write_enabled
    &&& if b0.timer0.interrupt_pending && (d[TIMSK0 as int] & TOIE0) != 0 {
        r == Some(TIMER0_OVF_VECTOR) && !b1.timer0.interrupt_pending
            && b1.adc.interrupt_pending == b0.adc.interrupt_pending
    } else {
        &&& b1.timer0.interrupt_pending == b0.timer0.interrupt_pending
        &&& if (ucsra & RXC0) != 0 && (ucsrb & RXCIE0) != 0 && (ucsrb & RXEN0) != 0 {
            r == Some(USART_RX_VECTOR) && b1.adc.interrupt_pending == b0.adc.interrupt_pending
        } else if (ucsra & UDRE0) != 0 && (ucsrb & UDRIE0) != 0 && (ucsrb & TXEN0) != 0 {
            r == Some(USART_UDRE_VECTOR) && b1.adc.interrupt_pending == b0.adc.interrupt_pending
        } else if (ucsra & TXC0) != 0 && (ucsrb & TXCIE0) != 0 && (ucsrb & TXEN0) != 0 {
            r == Some(USART_TX_VECTOR) && b1.adc.interrupt_pending == b0.adc.interrupt_pending
        } else if b0.adc.interrupt_pending && (d[ADCSRA as int] & ADIE) != 0 {
            r == Some(ADC_VECTOR) && !b1.adc.interrupt_pending
        } else {
            r is None && b1.adc.interrupt_pending == b0.adc.interrupt_pending
        }
    }
}

impl<B: MegaBoard> Atmega2560Bus<B> {
    /// A bus with an erased EEPROM (all 0xFF) of the size the board asks for.
    pub fn new(board: B, clock_hz: u32) -> (bus: Self)
        ensures
            bus.board == board,
            bus.clock_hz == clock_hz,
            bus.synced_cycles == 0,
            bus.timer0.cycle_remainder == 0 && !bus.timer0.interrupt_pending,
            bus.serial0.tx_log@.len() == 0 && bus.serial0.rx_queue@.len() == 0,
            bus.serial0.tx_busy_byte is None && bus.serial0.tx_cycles_remaining == 0,
            bus.adc.cycles_remaining == 0 && !bus.adc.interrupt_pending,
            !bus.spi_transaction_active_can && !bus.spi_transaction_active_rtd,
            forall|i: int| 0 <= i < bus.eeprom@.len() ==> #[trigger] bus.eeprom@[i] == 0xFF,
            !bus.eeprom_master_write_enabled,
    {
        let eeprom_size = board.eeprom_size();
        let eeprom: Vec<u8> = vec![0xFFu8; eeprom_size];
        Atmega2560Bus {
            board,
            clock_hz,
            synced_cycles: 0,
            timer0: Timer0State::default(),
            serial0: SerialState::default(),
            adc: AdcState::default(),
            spi_transaction_active_can: false,
            spi_transaction_active_rtd: false,
            eeprom,
            eeprom_master_write_enabled: false,
        }
    }

    /// Brings timer, USART, ADC and board forward to `target_cycles`.
    pub fn sync_to_cycle(&mut self, data: &mut [u8], target_cycles: u64)
        requires
            old(data)@.len() >= MEGA_IO_SPAN,
            mega_sync_fits(*old(self), old(data)@, target_cycles),
        ensures
            mega_sync(*old(self), old(data)@, target_cycles, *final(self), final(data)@),
    {
        if target_cycles <= self.synced_cycles {
            return ;
        }
        let delta = target_cycles - self.synced_cycles;
        self.board.advance_time(delta, self.clock_hz);
        let cycles: u32 = delta as u32;
        let control = data[TCCR0B];
        assert((control & 0x07) & 7 == control & 7) by (bit_vector);
        let prescaler = timer0_prescaler(control & 0x07);
        let mut tcnt0 = data[TCNT0];
        let mut tifr0 = data[TIFR0];
        let timsk0 = data[TIMSK0];
        self.timer0.advance(cycles, prescaler, &mut tcnt0, &mut tifr0, timsk0, TOV0, TOIE0);
        data[TCNT0] = tcnt0;
        data[TIFR0] = tifr0;
        let mut ucsra = data[UCSR0A];
        let ucsrb = data[UCSR0B];
        let mut udr = data[UDR0];
        self.serial0.advance(cycles, &mut ucsra, ucsrb, &mut udr, UDRE0, TXC0, RXC0, RXEN0);
        data[UCSR0A] = ucsra;
        data[UDR0] = udr;
        if self.adc.advance(cycles) {
            let srb: u8 = data[ADCSRB];
            let mux: u8 = data[ADMUX];
            let high: u8 = (srb & MUX5) >> 3u8;
            assert(high <= 1) by (bit_vector)
                requires
                    high == (srb & MUX5) >> 3u8,
            ;
            assert((mux & 0x07) <= 7) by (bit_vector);
            let channel: u8 = high * 8 + (mux & 0x07);
            let value: u16 = self.board.analog_input_counts(BoardPin::Analog(channel));
            data[ADCL] = (value & 0x00FF) as u8;
            let high_bits: u16 = (value >> 8u16) & 0x03;
            assert(high_bits <= 3) by (bit_vector)
                requires
                    high_bits == (value >> 8u16) & 0x03,
            ;
            data[ADCH] = high_bits as u8;
            let v: u8 = data[ADCSRA];
            data[ADCSRA] = (v & !ADSC) | ADIF;
            assert(((v & !ADSC) | ADIF) & ADIE == v & ADIE) by (bit_vector);
            if (data[ADCSRA] & ADIE) != 0 {
                self.adc.interrupt_pending = true;
            }
        }
        self.synced_cycles = target_cycles;
    }

    /// Drives the board from one port's `DDRx`/`PORTx`: each pin of the
    /// port takes the mode its two bits give, and an output the level of
    /// its `PORTx` bit.
    fn sync_port(&mut self, data: &[u8], pin_address: usize, ddr_address: usize, port_address: usize)
        requires
            ddr_address < data@.len(),
            port_address < data@.len(),
        ensures
            mega_same(*old(self), *final(self)),
            mega_port_synced(
                old(self).board,
                final(self).board,
                pin_address,
                data@[ddr_address as int],
                data@[port_address as int],
                8,
            ),
    {
        let ddr_value = data[ddr_address];
        let port_value = data[port_address];
        let mut bit_index: u8 = 0;
        while bit_index < 8
            invariant
                bit_index <= 8,
                ddr_value == data@[ddr_address as int],
                port_value == data@[port_address as int],
                mega_same(*old(self), *self),
                mega_port_synced(old(self).board, self.board, pin_address, ddr_value, port_value, bit_index),
            decreases 8 - bit_index,
        {
            let mask: u8 = 1u8 << bit_index;
            let ghost before = self.board;
            if let Some(pin) = port_pin(pin_address, bit_index) {
                if (ddr_value & mask) != 0 {
                    self.board.set_pin_mode(pin, PinMode::Output);
                    let level: u8 = if (port_value & mask) != 0 {
                        1
                    } else {
                        0
                    };
                    self.board.write_pin(pin, level);
                } else if (port_value & mask) != 0 {
                    self.board.set_pin_mode(pin, PinMode::InputPullup);
                } else {
                    self.board.set_pin_mode(pin, PinMode::Input);
                }
                proof {
                    let b0 = old(self).board;
                    let b1 = self.board;
                    assert forall|bit: u8|
                        bit < bit_index + 1 && #[trigger] spec_port_pin(pin_address, bit) is Some
                            implies mega_bit_applied(
                        b0,
                        b1,
                        spec_port_pin(pin_address, bit).unwrap(),
                        ddr_value,
                        port_value,
                        bit,
                    ) by {
                        if bit != bit_index {
                            if spec_port_pin(pin_address, bit).unwrap() == pin {
                                lemma_mega_port_pin_injective(pin_address, bit, bit_index);
                            }
                        }
                    }
                    assert forall|p: BoardPin|
                        #![trigger b1.configured_mode(p)]
                        #![trigger b1.driven_output(p)]
                        (forall|bit: u8| bit < bit_index + 1 ==> spec_port_pin(pin_address, bit) != Some(p))
                            implies b1.configured_mode(p) == b0.configured_mode(p) && b1.driven_output(p)
                        == b0.driven_output(p) by {
                        assert(spec_port_pin(pin_address, bit_index) != Some(p));
                        assert(before.configured_mode(p) == b0.configured_mode(p));
                    }
                }
            } else {
                proof {
                    let b0 = old(self).board;
                    let b1 = self.board;
                    assert forall|p: BoardPin|
                        #![trigger b1.configured_mode(p)]
                        #![trigger b1.driven_output(p)]
                        (forall|bit: u8| bit < bit_index + 1 ==> spec_port_pin(pin_address, bit) != Some(p))
                            implies b1.configured_mode(p) == b0.configured_mode(p) && b1.driven_output(p)
                        == b0.driven_output(p) by {
                        assert(forall|bit: u8| bit < bit_index ==> spec_port_pin(pin_address, bit) != Some(p));
                    }
                }
            }
            bit_index = bit_index + 1;
        }
    }

    /// Re-drives the board from the port of a `DDRx`/`PORTx` register.
    fn sync_port_of(&mut self, data: &[u8], address: usize)
        requires
            data@.len() >= MEGA_IO_SPAN,
            mega_port_config_reg(address),
        ensures
            mega_same(*old(self), *final(self)),
            ({
                let pin_address = mega_port_base(address);
                mega_port_synced(
                    old(self).board,
                    final(self).board,
                    pin_address,
                    data@[pin_address + 1],
                    data@[pin_address + 2],
                    8,
                )
            }),
    {
        let pin_address = if address == DDRA || address == PORTA {
            PINA
        } else if address == DDRB || address == PORTB {
            PINB
        } else if address == DDRC || address == PORTC {
            PINC
        } else if address == DDRD || address == PORTD {
            PIND
        } else if address == DDRE || address == PORTE {
            PINE
        } else if address == DDRF || address == PORTF {
            PINF
        } else if address == DDRG || address == PORTG {
            PING
        } else if address == DDRH || address == PORTH {
            PINH
        } else if address == DDRJ || address == PORTJ {
            PINJ
        } else if address == DDRK || address == PORTK {
            PINK
        } else {
            PINL
        };
        self.sync_port(data, pin_address, pin_address + 1, pin_address + 2);
    }

    /// The `PINx` register at `pin_address`: bit `n` is set when the pin
    /// behind it reads high.
    fn read_pin_register(&self, pin_address: usize) -> (value: u8)
        ensures
            forall|bit: u8| bit < 8 ==> #[trigger] bit_of(value, bit) == mega_pin_bit(self.board, pin_address, bit),
    {
        let mut value: u8 = 0;
        let mut bit_index: u8 = 0;
        proof {
            assert forall|j: u8| j < 8 implies #[trigger] bit_of(value, j) == 0u8 by {
                lemma_set_bit(0u8, 0u8, j);
            }
        }
        while bit_index < 8
            invariant
                bit_index <= 8,
                forall|j: u8|
                    j < 8 ==> #[trigger] bit_of(value, j) == (if j < bit_index {
                        mega_pin_bit(self.board, pin_address, j)
                    } else {
                        0u8
                    }),
            decreases 8 - bit_index,
        {
            let ghost v0 = value;
            if let Some(pin) = port_pin(pin_address, bit_index) {
                if self.board.read_pin(pin) != 0 {
                    value = value | (1u8 << bit_index);
                    proof {
                        assert forall|j: u8| j < 8 implies #[trigger] bit_of(value, j) == (if j < bit_index + 1 {
                            mega_pin_bit(self.board, pin_address, j)
                        } else {
                            0u8
                        }) by {
                            lemma_set_bit(v0, bit_index, j);
                        }
                    }
                }
            }
            bit_index = bit_index + 1;
        }
        value
    }

    /// Levels of D0..D53 then A0..A15, as the board reads them.
    pub fn host_pin_levels(&self) -> (levels: Vec<BoardPinLevel>)
        ensures
            levels@.len() == 70,
            forall|i: int| 0 <= i < levels@.len() ==> #[trigger] levels@[i].level == self.board.pin_reading(levels@[i].pin),
            forall|i: int| 0 <= i < 54 ==> #[trigger] levels@[i].pin == BoardPin::Digital(i as u8),
            forall|i: int| 54 <= i < 70 ==> #[trigger] levels@[i].pin == BoardPin::Analog((i - 54) as u8),
    {
        let mut levels: Vec<BoardPinLevel> = Vec::new();
        let mut pin: u8 = 0;
        while pin <= 53
            invariant
                pin <= 54,
                levels@.len() == pin,
                forall|i: int| 0 <= i < levels@.len() ==> #[trigger] levels@[i].level == self.board.pin_reading(levels@[i].pin),
                forall|i: int| 0 <= i < pin ==> #[trigger] levels@[i].pin == BoardPin::Digital(i as u8),
            decreases 54 - pin,
        {
            let level = self.board.read_pin(BoardPin::Digital(pin));
            levels.push(BoardPinLevel { pin: BoardPin::Digital(pin), level });
            pin = pin + 1;
        }
        let mut pin: u8 = 0;
        while pin <= 15
            invariant
                pin <= 16,
                levels@.len() == 54 + pin,
                forall|i: int| 0 <= i < levels@.len() ==> #[trigger] levels@[i].level == self.board.pin_reading(levels@[i].pin),
                forall|i: int| 0 <= i < 54 ==> #[trigger] levels@[i].pin == BoardPin::Digital(i as u8),
                forall|i: int| 54 <= i < 54 + pin ==> #[trigger] levels@[i].pin == BoardPin::Analog((i - 54) as u8),
            decreases 16 - pin,
        {
            let level = self.board.read_pin(BoardPin::Analog(pin));
            levels.push(BoardPinLevel { pin: BoardPin::Analog(pin), level });
            pin = pin + 1;
        }
        levels
    }

    fn write_udr0(&mut self, data: &mut [u8], value: u8)
        requires
            old(data)@.len() >= MEGA_IO_SPAN,
        ensures
            mega_write_register(*old(self), old(data)@, UDR0, value, *final(self), final(data)@, true),
    {
        data[UDR0] = value;
        let ubrr: u16 = (data[UBRR0L] as u16) | (((data[UBRR0H] as u16) & 0x0F) << 8u16);
        let double_speed = (data[UCSR0A] & U2X0) != 0;
        let tx_enabled = (data[UCSR0B] & TXEN0) != 0;
        let mut ucsra = data[UCSR0A];
        self.serial0.write_udr(
            value,
            self.clock_hz,
            ubrr,
            double_speed,
            tx_enabled,
            &mut ucsra,
            UDRE0,
            TXC0,
        );
        data[UCSR0A] = ucsra;
    }

    fn write_adcsra(&mut self, data: &mut [u8], value: u8)
        requires
            old(data)@.len() >= MEGA_IO_SPAN,
        ensures
            mega_adcsra_write(*old(self), old(data)@, value, *final(self), final(data)@),
    {
        let preserved = data[ADCSRA] & ADIF;
        let mut updated = value | preserved;
        if (value & ADIF) != 0 {
            updated = updated & !ADIF;
            self.adc.interrupt_pending = false;
        }
        if (updated & ADEN) == 0 {
            data[ADCSRA] = updated & !(ADSC | ADIF);
            self.adc.clear();
            assert(data@ =~= old(data)@.update(ADCSRA as int, updated & !(ADSC | ADIF)));
            return ;
        }
        if (value & ADSC) != 0 && self.adc.cycles_remaining <= 0 {
            let prescaler = adc_prescaler(updated & ADPS_MASK);
            self.adc.start(13 * prescaler);
            data[ADCSRA] = updated | ADSC;
            assert(data@ =~= old(data)@.update(ADCSRA as int, updated | ADSC));
        } else {
            data[ADCSRA] = updated;
            assert(data@ =~= old(data)@.update(ADCSRA as int, updated));
        }
    }

    fn write_eecr(&mut self, data: &mut [u8], value: u8)
        requires
            old(data)@.len() >= MEGA_IO_SPAN,
        ensures
            mega_eecr_write(*old(self), old(data)@, value, *final(self), final(data)@),
    {
        let address: usize = (data[EEARL] as usize) + ((data[EEARH] & 0x0F) as usize) * 256;
        let mut control: u8 = value & (EERE | EEPE | EEMPE);
        if (value & EERE) != 0 {
            data[EEDR] = if address < self.eeprom.len() {
                self.eeprom[address]
            } else {
                0xFF
            };
            control = control & !EERE;
        }
        if (value & EEMPE) != 0 {
            self.eeprom_master_write_enabled = true;
        }
        if (value & EEPE) != 0 && self.eeprom_master_write_enabled {
            if address < self.eeprom.len() {
                let stored = data[EEDR];
                self.eeprom.set(address, stored);
            }
            self.eeprom_master_write_enabled = false;
            control = control & !(EEPE | EEMPE);
        }
        data[EECR] = control;
        assert(data@ =~= old(data)@.update(EECR as int, control).update(EEDR as int, data@[EEDR as int]));
    }

    fn sync_pwm_output(&mut self, data: &[u8])
        requires
            data@.len() >= MEGA_IO_SPAN,
        ensures
            mega_same(*old(self), *final(self)),
            mega_pwm_synced(old(self).board, final(self).board, data@),
    {
        self.board.set_pwm_duty(BoardPin::Digital(46), data[OCR5AL]);
        self.board.set_pwm_duty(BoardPin::Digital(45), data[OCR5BL]);
        self.board.set_pwm_duty(BoardPin::Digital(44), data[OCR5CL]);
    }

    /// Resets the I/O state and the USART/ADC/EEPROM registers (the EEPROM
    /// contents stay), then drives the board from the current port and PWM
    /// registers.
    pub fn reset(&mut self, data: &mut [u8])
        requires
            old(data)@.len() >= MEGA_IO_SPAN,
        ensures
            mega_pwm_duties(old(self).board, final(self).board, final(data)@),
            final(self).board.can_exchanges() == old(self).board.can_exchanges(),
            final(self).board.rtd_exchanges() == old(self).board.rtd_exchanges(),
            mega_ports_synced(old(self).board, final(self).board, final(data)@, mega_port_addresses()),
            final(self).clock_hz == old(self).clock_hz,
            final(self).synced_cycles == 0,
            final(self).timer0.cycle_remainder == 0 && !final(self).timer0.interrupt_pending,
            final(self).serial0.tx_log@.len() == 0 && final(self).serial0.rx_queue@.len() == 0,
            final(self).serial0.tx_busy_byte is None && final(self).serial0.tx_cycles_remaining
                == 0,
            final(self).adc.cycles_remaining == 0 && !final(self).adc.interrupt_pending,
            !final(self).spi_transaction_active_can && !final(self).spi_transaction_active_rtd,
            final(self).eeprom@ == old(self).eeprom@,
            !final(self).eeprom_master_write_enabled,
            final(data)@ == old(data)@.update(TIFR0 as int, 0).update(UCSR0A as int, UDRE0 | TXC0).update(
                UCSR0B as int,
                0,
            ).update(UCSR0C as int, 0).update(UBRR0L as int, 0).update(UBRR0H as int, 0).update(
                UDR0 as int,
                0,
            ).update(ADCSRA as int, 0).update(ADCSRB as int, 0).update(ADMUX as int, 0).update(
                ADCL as int,
                0,
            ).update(ADCH as int, 0).update(EECR as int, 0).update(EEDR as int, 0xFF).update(
                EEARL as int,
                0,
            ).update(EEARH as int, 0),
    {
        self.synced_cycles = 0;
        self.timer0.reset();
        self.serial0.reset();
        self.adc.reset();
        self.spi_transaction_active_can = false;
        self.spi_transaction_active_rtd = false;
        self.eeprom_master_write_enabled = false;
        data[TIFR0] = 0;
        data[UCSR0A] = UDRE0 | TXC0;
        data[UCSR0B] = 0;
        data[UCSR0C] = 0;
        data[UBRR0L] = 0;
        data[UBRR0H] = 0;
        data[UDR0] = 0;
        data[ADCSRA] = 0;
        data[ADCSRB] = 0;
        data[ADMUX] = 0;
        data[ADCL] = 0;
        data[ADCH] = 0;
        data[EECR] = 0;
        data[EEDR] = 0xFF;
        data[EEARL] = 0;
        data[EEARH] = 0;
        let ghost b0 = self.board;
        let ghost mut done: Seq<usize> = Seq::empty();
        let ghost prev = self.board;
        self.sync_port(data, PINA, DDRA, PORTA);
        proof {
            assert(!done.contains(PINA));
            lemma_mega_add_port(b0, prev, self.board, data@, done, PINA);
            done = done.push(PINA);
        }
        let ghost prev = self.board;
        self.sync_port(data, PINB, DDRB, PORTB);
        proof {
            assert(!done.contains(PINB));
            lemma_mega_add_port(b0, prev, self.board, data@, done, PINB);
            done = done.push(PINB);
        }
        let ghost prev = self.board;
        self.sync_port(data, PINC, DDRC, PORTC);
        proof {
            assert(!done.contains(PINC));
            lemma_mega_add_port(b0, prev, self.board, data@, done, PINC);
            done = done.push(PINC);
        }
        let ghost prev = self.board;
        self.sync_port(data, PIND, DDRD, PORTD);
        proof {
            assert(!done.contains(PIND));
            lemma_mega_add_port(b0, prev, self.board, data@, done, PIND);
            done = done.push(PIND);
        }
        let ghost prev = self.board;
        self.sync_port(data, PINE, DDRE, PORTE);
        proof {
            assert(!done.contains(PINE));
            lemma_mega_add_port(b0, prev, self.board, data@, done, PINE);
            done = done.push(PINE);
        }
        let ghost prev = self.board;
        self.sync_port(data, PINF, DDRF, PORTF);
        proof {
            assert(!done.contains(PINF));
            lemma_mega_add_port(b0, prev, self.board, data@, done, PINF);
            done = done.push(PINF);
        }
        let ghost prev = self.board;
        self.sync_port(data, PING, DDRG, PORTG);
        proof {
            assert(!done.contains(PING));
            lemma_mega_add_port(b0, prev, self.board, data@, done, PING);
            done = done.push(PING);
        }
        let ghost prev = self.board;
        self.sync_port(data, PINH, DDRH, PORTH);
        proof {
            assert(!done.contains(PINH));
            lemma_mega_add_port(b0, prev, self.board, data@, done, PINH);
            done = done.push(PINH);
        }
        let ghost prev = self.board;
        self.sync_port(data, PINJ, DDRJ, PORTJ);
        proof {
            assert(!done.contains(PINJ));
            lemma_mega_add_port(b0, prev, self.board, data@, done, PINJ);
            done = done.push(PINJ);
        }
        let ghost prev = self.board;
        self.sync_port(data, PINK, DDRK, PORTK);
        proof {
            assert(!done.contains(PINK));
            lemma_mega_add_port(b0, prev, self.board, data@, done, PINK);
            done = done.push(PINK);
        }
        let ghost prev = self.board;
        self.sync_port(data, PINL, DDRL, PORTL);
        proof {
            assert(!done.contains(PINL));
            lemma_mega_add_port(b0, prev, self.board, data@, done, PINL);
            done = done.push(PINL);
        }
        assert(done =~= mega_port_addresses());
        let ghost synced = self.board;
        self.sync_pwm_output(data);
        proof {
            assert forall|pin: BoardPin| #[trigger] self.board.configured_mode(pin) == synced.configured_mode(pin)
                && self.board.driven_output(pin) == synced.driven_output(pin) by {}
        }
    }

    /// A read of the data space at `address`, after catching up to
    /// `cycles`; `None` for addresses outside the I/O model.
    pub fn read_data(&mut self, data: &mut [u8], cycles: u64, address: usize) -> (r: Option<u8>)
        requires
            old(data)@.len() >= MEGA_IO_SPAN,
            mega_sync_fits(*old(self), old(data)@, cycles),
        ensures
            exists|mid: Atmega2560Bus<B>, mid_data: Seq<u8>|
                #![trigger mega_sync(*old(self), old(data)@, cycles, mid, mid_data)]
                mega_sync(*old(self), old(data)@, cycles, mid, mid_data) && mega_read_register(
                    mid,
                    mid_data,
                    address,
                    *final(self),
                    final(data)@,
                    r,
                ),
    {
        self.sync_to_cycle(data, cycles);
        let ghost mid = *self;
        let ghost mid_data = data@;
        let r = self.read_register(data, address);
        assert(mega_sync(*old(self), old(data)@, cycles, mid, mid_data));
        r
    }

    /// A read of the data space at `address` without catching up first.
    pub fn read_register(&mut self, data: &mut [u8], address: usize) -> (r: Option<u8>)
        requires
            old(data)@.len() >= MEGA_IO_SPAN,
        ensures
            mega_read_register(*old(self), old(data)@, address, *final(self), final(data)@, r),
    {
        if address == PINA || address == PINB || address == PINC || address == PIND || address
            == PINE || address == PINF || address == PING || address == PINH || address == PINJ
            || address == PINK || address == PINL {
            Some(self.read_pin_register(address))
        } else if address == UDR0 {
            let value = data[UDR0];
            let mut ucsra = data[UCSR0A] & !RXC0;
            let ucsrb = data[UCSR0B];
            let mut udr = data[UDR0];
            self.serial0.service_rx_latch(&mut ucsra, ucsrb, &mut udr, RXC0, RXEN0);
            data[UCSR0A] = ucsra;
            data[UDR0] = udr;
            Some(value)
        } else if address == SPDR {
            let value = data[SPDR];
            data[SPSR] = data[SPSR] & !(SPIF | WCOL);
            Some(value)
        } else if is_mega_readable(address) {
            Some(data[address])
        } else {
            None
        }
    }

    /// A write of `value` at `address`, after catching up to `cycles`;
    /// false for addresses outside the I/O model.
    pub fn write_data(&mut self, data: &mut [u8], cycles: u64, address: usize, value: u8) -> (handled: bool)
        requires
            old(data)@.len() >= MEGA_IO_SPAN,
            mega_sync_fits(*old(self), old(data)@, cycles),
        ensures
            exists|mid: Atmega2560Bus<B>, mid_data: Seq<u8>|
                #![trigger mega_sync(*old(self), old(data)@, cycles, mid, mid_data)]
                mega_sync(*old(self), old(data)@, cycles, mid, mid_data) && mega_write_register(
                    mid,
                    mid_data,
                    address,
                    value,
                    *final(self),
                    final(data)@,
                    handled,
                ),
    {
        self.sync_to_cycle(data, cycles);
        let ghost mid = *self;
        let ghost mid_data = data@;
        let handled = self.write_register(data, address, value);
        assert(mega_sync(*old(self), old(data)@, cycles, mid, mid_data));
        handled
    }

    /// A write of `value` at `address` without catching up first.
    pub fn write_register(&mut self, data: &mut [u8], address: usize, value: u8) -> (handled: bool)
        requires
            old(data)@.len() >= MEGA_IO_SPAN,
        ensures
            mega_write_register(*old(self), old(data)@, address, value, *final(self), final(data)@, handled),
    {
        if is_mega_port_config(address) {
            data[address] = value;
            self.sync_port_of(data, address);
            true
        } else if address == OCR5AL || address == OCR5AH || address == OCR5BL || address == OCR5BH
            || address == OCR5CL || address == OCR5CH {
            data[address] = value;
            self.sync_pwm_output(data);
            true
        } else if address == TIFR0 {
            data[TIFR0] = data[TIFR0] & !value;
            if (data[TIFR0] & TOV0) == 0 {
                self.timer0.interrupt_pending = false;
            }
            true
        } else if address == UCSR0A {
            let writable = U2X0;
            let mut updated = (data[UCSR0A] & !(writable | TXC0)) | (value & writable);
            if (value & TXC0) == 0 {
                updated = updated | (TXC0 & updated);
            }
            data[UCSR0A] = updated;
            true
        } else if address == UCSR0B {
            data[UCSR0B] = value;
            if (value & RXEN0) == 0 {
                data[UCSR0A] = data[UCSR0A] & !RXC0;
            } else {
                let mut ucsra = data[UCSR0A];
                let ucsrb = data[UCSR0B];
                let mut udr = data[UDR0];
                self.serial0.service_rx_latch(&mut ucsra, ucsrb, &mut udr, RXC0, RXEN0);
                data[UCSR0A] = ucsra;
                data[UDR0] = udr;
            }
            true
        } else if address == UCSR0C || address == UBRR0L || address == UBRR0H || address == SPCR
            || address == OCR0A || address == OCR0B || address == TCCR0A || address == TCCR0B
            || address == TCNT0 || address == TIMSK0 || address == ADCL || address == ADCH
            || address == ADMUX || address == ADCSRB || address == DIDR0 || address == DIDR2
            || address == EEDR || address == EEARL || address == EEARH {
            data[address] = value;
            true
        } else if address == SPSR {
            data[SPSR] = (data[SPSR] & (SPIF | WCOL)) | (value & SPI2X);
            true
        } else if address == UDR0 {
            self.write_udr0(data, value);
            true
        } else if address == SPDR {
            data[SPDR] = value;
            let settings = SpiSettings { spcr: data[SPCR], spsr: data[SPSR] };
            if (data[SPCR] & (SPE | MSTR)) == (SPE | MSTR) {
                let cs_can = self.board.read_pin(BoardPin::Digital(26)) == 0;
                let cs_rtd = self.board.read_pin(BoardPin::Digital(27)) == 0;
                if cs_can {
                    if !self.spi_transaction_active_can {
                        self.board.begin_spi_can(settings);
                        self.spi_transaction_active_can = true;
                    }
                    data[SPDR] = self.board.transfer_spi_can(value, settings);
                } else if cs_rtd {
                    if !self.spi_transaction_active_rtd {
                        self.board.begin_spi_rtd(settings);
                        self.spi_transaction_active_rtd = true;
                    }
                    data[SPDR] = self.board.transfer_spi_rtd(value, settings);
                } else {
                    data[SPDR] = 0;
                }
                data[SPSR] = data[SPSR] | SPIF;
            }
            true
        } else if address == ADCSRA {
            self.write_adcsra(data, value);
            true
        } else if address == EECR {
            self.write_eecr(data, value);
            true
        } else {
            false
        }
    }

    /// Catches up after an instruction that ended at `cycles`.
    pub fn after_step(&mut self, data: &mut [u8], cycles: u64)
        requires
            old(data)@.len() >= MEGA_IO_SPAN,
            mega_sync_fits(*old(self), old(data)@, cycles),
        ensures
            mega_sync(*old(self), old(data)@, cycles, *final(self), final(data)@),
    {
        self.sync_to_cycle(data, cycles);
    }

    /// Catches up to `cycles`, then names the interrupt to take, if any, and
    /// clears its one-shot pending flag.
    pub fn pending_interrupt(&mut self, data: &mut [u8], cycles: u64) -> (r: Option<u8>)
        requires
            old(data)@.len() >= MEGA_IO_SPAN,
            mega_sync_fits(*old(self), old(data)@, cycles),
        ensures
            exists|mid: Atmega2560Bus<B>, mid_data: Seq<u8>|
                #![trigger mega_sync(*old(self), old(data)@, cycles, mid, mid_data)]
                mega_sync(*old(self), old(data)@, cycles, mid, mid_data) && final(data)@
                    == mid_data && mega_pending_interrupt(mid, mid_data, *final(self), r),
    {
        self.sync_to_cycle(data, cycles);
        let ghost mid = *self;
        let ghost mid_data = data@;
        assert(mega_sync(*old(self), old(data)@, cycles, mid, mid_data));
        if self.timer0.interrupt_pending && (data[TIMSK0] & TOIE0) != 0 {
            self.timer0.interrupt_pending = false;
            return Some(TIMER0_OVF_VECTOR);
        }
        if (data[UCSR0A] & RXC0) != 0 && (data[UCSR0B] & RXCIE0) != 0 && (data[UCSR0B] & RXEN0)
            != 0 {
            return Some(USART_RX_VECTOR);
        }
        if (data[UCSR0A] & UDRE0) != 0 && (data[UCSR0B] & UDRIE0) != 0 && (data[UCSR0B] & TXEN0)
            != 0 {
            return Some(USART_UDRE_VECTOR);
        }
        if (data[UCSR0A] & TXC0) != 0 && (data[UCSR0B] & TXCIE0) != 0 && (data[UCSR0B] & TXEN0)
            != 0 {
            return Some(USART_TX_VECTOR);
        }
        if self.adc.interrupt_pending && (data[ADCSRA] & ADIE) != 0 {
            self.adc.interrupt_pending = false;
            return Some(ADC_VECTOR);
        }
        None
    }

    /// Catches up to the end of an interrupt entry of `latency_cycles`.
    pub fn on_interrupt(&mut self, data: &mut [u8], cycles: u64, latency_cycles: u8)
        requires
            old(data)@.len() >= MEGA_IO_SPAN,
            cycles + latency_cycles <= u64::MAX,
            mega_sync_fits(*old(self), old(data)@, (cycles + latency_cycles) as u64),
        ensures
            mega_sync(
                *old(self),
                old(data)@,
                (cycles + latency_cycles) as u64,
                *final(self),
                final(data)@,
            ),
    {
        self.sync_to_cycle(data, cycles + latency_cycles as u64);
    }
}

/// Whether `address` is one of the `DDRx`/`PORTx` registers.
pub fn is_mega_port_config(address: usize) -> (r: bool)
    ensures
        r == mega_port_config_reg(address),
{
    address == DDRA || address == PORTA || address == DDRB || address == PORTB || address == DDRC
        || address == PORTC || address == DDRD || address == PORTD || address == DDRE || address
        == PORTE || address == DDRF || address == PORTF || address == DDRG || address == PORTG
        || address == DDRH || address == PORTH || address == DDRJ || address == PORTJ || address
        == DDRK || address == PORTK || address == DDRL || address == PORTL
}

/// Whether a read of `address` returns the register as it is.
pub fn is_mega_readable(address: usize) -> (r: bool)
    ensures
        r == mega_readable_reg(address),
{
    is_mega_port_config(address) || address == OCR5AL || address == OCR5AH || address == OCR5BL
        || address == OCR5BH || address == OCR5CL || address == OCR5CH || address == TIFR0
        || address == TCCR0A || address == TCCR0B || address == TCNT0 || address == OCR0A
        || address == OCR0B || address == SPCR || address == SPSR || address == TIMSK0 || address
        == UCSR0A || address == UCSR0B || address == UCSR0C || address == UBRR0L || address
        == UBRR0H || address == EECR || address == EEDR || address == EEARL || address == EEARH
        || address == ADCL || address == ADCH || address == ADCSRA || address == ADCSRB || address
        == ADMUX || address == DIDR0 || address == DIDR2
}

/// Arming the EEPROM (`EEMPE`) and then starting a write (`EEPE`) stores
/// `EEDR` at the address in `EEARH:EEARL`; a read (`EERE`) of the same
/// address afterwards gives that byte back in `EEDR` and leaves the EEPROM
/// as the write left it.
pub proof fn law_eeprom_write_reads_back<B: MegaBoard>(
    b0: Atmega2560Bus<B>,
    d0: Seq<u8>,
    b1: Atmega2560Bus<B>,
    d1: Seq<u8>,
    h1: bool,
    b2: Atmega2560Bus<B>,
    d2: Seq<u8>,
    h2: bool,
    b3: Atmega2560Bus<B>,
    d3: Seq<u8>,
    h3: bool,
)
    requires
        d0.len() >= MEGA_IO_SPAN,
        spec_eeprom_address(d0) < b0.eeprom@.len(),
        mega_write_register(b0, d0, EECR, EEMPE, b1, d1, h1),
        mega_write_register(b1, d1, EECR, EEPE, b2, d2, h2),
        mega_write_register(b2, d2, EECR, EERE, b3, d3, h3),
    ensures
        h1 && h2 && h3,
        b2.eeprom@ == b0.eeprom@.update(spec_eeprom_address(d0), d0[EEDR as int]),
        d3[EEDR as int] == d0[EEDR as int],
        b3.eeprom@ == b2.eeprom@,
        !b3.eeprom_master_write_enabled,
{
    assert(EEMPE & EERE == 0 && EEMPE & EEPE == 0 && EEMPE & EEMPE != 0) by (bit_vector);
    assert(EEPE & EERE == 0 && EEPE & EEPE != 0 && EEPE & EEMPE == 0) by (bit_vector);
    assert(EERE & EERE != 0 && EERE & EEPE == 0 && EERE & EEMPE == 0) by (bit_vector);
    let address = spec_eeprom_address(d0);
    assert(d1[EEDR as int] == d0[EEDR as int]);
    assert(b1.eeprom@ == b0.eeprom@ && b1.eeprom_master_write_enabled);
    assert(spec_eeprom_address(d1) == address);
    assert(b2.eeprom@ == b0.eeprom@.update(address, d1[EEDR as int]));
    assert(spec_eeprom_address(d2) == address);
    assert(b2.eeprom@[address] == d0[EEDR as int]);
}

} // verus!
