use std::collections::{HashMap, VecDeque};

use avrsim::mcu::atmega2560::{
    Atmega2560Bus, EEARH, EEARL, EECR, EEDR, EEMPE, EEPE, EERE, MegaBoard, NullMegaBoard, ADCH, ADCL, ADCSRA, ADCSRB, ADMUX, DDRA, DDRC,
    MEGA_IO_SPAN, OCR5BL, PORTA, PORTC, SPCR as MEGA_SPCR, SPDR as MEGA_SPDR,
    UBRR0L as MEGA_UBRR0L, UCSR0A as MEGA_UCSR0A, UCSR0B as MEGA_UCSR0B, UDR0 as MEGA_UDR0,
};
use avrsim::mcu::atmega328p::{
    Atmega328pBus, NanoBoard, NullNanoBoard, DDRB, DDRD, NANO_IO_SPAN, PORTB, PORTD,
    SPCR as NANO_SPCR, SPDR as NANO_SPDR, TWCR, TWDR, TWSR, UBRR0L as NANO_UBRR0L,
    UCSR0A as NANO_UCSR0A, UCSR0B as NANO_UCSR0B, UDR0 as NANO_UDR0,
};
use avrsim::mcu::common::{BoardPin, PinMode, SpiSettings};

const TXEN0: u8 = 1 << 3;
const RXEN0: u8 = 1 << 4;
const MSTR: u8 = 1 << 4;
const SPE: u8 = 1 << 6;
const UDRE0: u8 = 1 << 5;
const ADSC: u8 = 1 << 6;
const ADEN: u8 = 1 << 7;
const ADIF: u8 = 1 << 4;
const RXC0: u8 = 1 << 7;
const MUX5: u8 = 1 << 3;
const TWEN: u8 = 1 << 2;
const TWSTO: u8 = 1 << 4;
const TWSTA: u8 = 1 << 5;
const TWEA: u8 = 1 << 6;
const TWINT: u8 = 1 << 7;
const TW_START: u8 = 0x08;
const TW_MT_SLA_ACK: u8 = 0x18;
const TW_MT_DATA_ACK: u8 = 0x28;
const TW_MR_SLA_ACK: u8 = 0x40;
const TW_MR_DATA_ACK: u8 = 0x50;
const TW_MR_DATA_NACK: u8 = 0x58;

/// The data space of an ATmega328P with its bus: what the bus does not
/// handle goes to plain SRAM, as the CPU core does it.
struct NanoMcu<B: NanoBoard> {
    bus: Atmega328pBus<B>,
    data: Vec<u8>,
    cycles: u64,
}

impl<B: NanoBoard> NanoMcu<B> {
    fn new(board: B) -> Self {
        let mut bus = Atmega328pBus::new(board, 16_000_000);
        let mut data = vec![0u8; 0x900];
        assert!(data.len() >= NANO_IO_SPAN);
        bus.reset(&mut data);
        NanoMcu { bus, data, cycles: 0 }
    }

    fn write_data(&mut self, address: usize, value: u8) {
        if !self.bus.write_data(&mut self.data, self.cycles, address, value) {
            self.data[address] = value;
        }
    }

    fn read_data(&mut self, address: usize) -> u8 {
        match self.bus.read_data(&mut self.data, self.cycles, address) {
            Some(value) => value,
            None => self.data[address],
        }
    }

    fn advance_cycles(&mut self, extra_cycles: u64) {
        self.cycles += extra_cycles;
        self.bus.after_step(&mut self.data, self.cycles);
    }
}

/// The same for an ATmega2560.
struct MegaMcu<B: MegaBoard> {
    bus: Atmega2560Bus<B>,
    data: Vec<u8>,
    cycles: u64,
}

impl<B: MegaBoard> MegaMcu<B> {
    fn new(board: B) -> Self {
        let mut bus = Atmega2560Bus::new(board, 16_000_000);
        let mut data = vec![0u8; 0x2200];
        assert!(data.len() >= MEGA_IO_SPAN);
        bus.reset(&mut data);
        MegaMcu { bus, data, cycles: 0 }
    }

    fn write_data(&mut self, address: usize, value: u8) {
        if !self.bus.write_data(&mut self.data, self.cycles, address, value) {
            self.data[address] = value;
        }
    }

    fn read_data(&mut self, address: usize) -> u8 {
        match self.bus.read_data(&mut self.data, self.cycles, address) {
            Some(value) => value,
            None => self.data[address],
        }
    }

    fn advance_cycles(&mut self, extra_cycles: u64) {
        self.cycles += extra_cycles;
        self.bus.after_step(&mut self.data, self.cycles);
    }
}

fn encode_measurement_payload(temp_c: f64, rh_percent: f64) -> [u8; 6] {
    let raw_temp = (((temp_c + 45.0) / 175.0) * 65535.0).round() as u16;
    let raw_rh = ((rh_percent / 100.0) * 65535.0).round() as u16;
    [
        ((raw_temp >> 8) & 0xFF) as u8,
        (raw_temp & 0xFF) as u8,
        0,
        ((raw_rh >> 8) & 0xFF) as u8,
        (raw_rh & 0xFF) as u8,
        0,
    ]
}

fn decode_measurement_payload(payload: &[u8]) -> (f64, f64) {
    let raw_temp = ((payload[0] as u16) << 8) | (payload[1] as u16);
    let raw_rh = ((payload[3] as u16) << 8) | (payload[4] as u16);
    let temp_c = -45.0 + (175.0 * f64::from(raw_temp) / 65535.0);
    let rh_percent = 100.0 * f64::from(raw_rh) / 65535.0;
    (temp_c, rh_percent)
}

#[derive(Default)]
struct TestNanoBoard {
    pin_modes: HashMap<BoardPin, PinMode>,
    pin_levels: HashMap<BoardPin, u8>,
    spi_log: Vec<u8>,
    spi_responses: VecDeque<u8>,
    i2c_preview_ok: bool,
    i2c_reads: HashMap<u8, Vec<u8>>,
    i2c_writes: Vec<(u8, Vec<u8>)>,
}

impl TestNanoBoard {
    fn level(&self, pin: BoardPin) -> u8 {
        *self.pin_levels.get(&pin).unwrap_or(&0)
    }
}

impl NanoBoard for TestNanoBoard {
    fn advance_time(&mut self, _elapsed_cycles: u64, _clock_hz: u32) {}

    fn pin_reading(&self, pin: BoardPin) -> u8 {
        self.level(pin)
    }

    fn configured_mode(&self, pin: BoardPin) -> Option<PinMode> {
        self.pin_modes.get(&pin).copied()
    }

    fn driven_output(&self, pin: BoardPin) -> Option<u8> {
        self.pin_levels.get(&pin).copied()
    }

    fn read_pin(&self, pin: BoardPin) -> u8 {
        self.level(pin)
    }

    fn set_pin_mode(&mut self, pin: BoardPin, mode: PinMode) {
        self.pin_modes.insert(pin, mode);
    }

    fn write_pin(&mut self, pin: BoardPin, level: u8) {
        self.pin_levels.insert(pin, level);
    }

    fn begin_spi(&mut self, _settings: SpiSettings) {}

    fn transfer_spi(&mut self, value: u8, _settings: SpiSettings) -> u8 {
        self.spi_log.push(value);
        self.spi_responses.pop_front().unwrap_or(0)
    }

    fn i2c_preview_write(&self, _address: u8, _payload: &[u8]) -> bool {
        self.i2c_preview_ok
    }

    fn i2c_write(&mut self, address: u8, payload: &[u8]) -> bool {
        self.i2c_writes.push((address, payload.to_vec()));
        self.i2c_preview_ok
    }

    fn i2c_read(&mut self, address: u8, _length: usize) -> Option<Vec<u8>> {
        self.i2c_reads.get(&address).cloned()
    }
}

#[derive(Default)]
struct TestMegaBoard {
    pin_modes: HashMap<BoardPin, PinMode>,
    pin_levels: HashMap<BoardPin, u8>,
    analog_counts: HashMap<BoardPin, u16>,
    can_log: Vec<u8>,
    can_responses: VecDeque<u8>,
    rtd_log: Vec<u8>,
    rtd_responses: VecDeque<u8>,
    pwm_duty: HashMap<BoardPin, u8>,
}

impl TestMegaBoard {
    fn level(&self, pin: BoardPin) -> u8 {
        *self.pin_levels.get(&pin).unwrap_or(&0)
    }

    fn sensor_status_leds(&self) -> (bool, bool, bool, bool) {
        (
            self.level(BoardPin::Digital(30)) != 0,
            self.level(BoardPin::Digital(31)) != 0,
            self.level(BoardPin::Digital(32)) != 0,
            self.level(BoardPin::Digital(33)) != 0,
        )
    }
}

impl MegaBoard for TestMegaBoard {
    fn advance_time(&mut self, _elapsed_cycles: u64, _clock_hz: u32) {}

    fn pin_reading(&self, pin: BoardPin) -> u8 {
        self.level(pin)
    }

    fn configured_mode(&self, pin: BoardPin) -> Option<PinMode> {
        self.pin_modes.get(&pin).copied()
    }

    fn driven_output(&self, pin: BoardPin) -> Option<u8> {
        self.pin_levels.get(&pin).copied()
    }

    fn read_pin(&self, pin: BoardPin) -> u8 {
        self.level(pin)
    }

    fn set_pin_mode(&mut self, pin: BoardPin, mode: PinMode) {
        self.pin_modes.insert(pin, mode);
    }

    fn write_pin(&mut self, pin: BoardPin, level: u8) {
        self.pin_levels.insert(pin, level);
    }

    fn set_pwm_duty(&mut self, pin: BoardPin, duty: u8) {
        self.pwm_duty.insert(pin, duty);
    }

    fn begin_spi_can(&mut self, _settings: SpiSettings) {}

    fn transfer_spi_can(&mut self, value: u8, _settings: SpiSettings) -> u8 {
        self.can_log.push(value);
        self.can_responses.pop_front().unwrap_or(0)
    }

    fn begin_spi_rtd(&mut self, _settings: SpiSettings) {}

    fn transfer_spi_rtd(&mut self, value: u8, _settings: SpiSettings) -> u8 {
        self.rtd_log.push(value);
        self.rtd_responses.pop_front().unwrap_or(0)
    }

    fn analog_reading(&self, pin: BoardPin) -> u16 {
        *self.analog_counts.get(&pin).unwrap_or(&0)
    }

    fn analog_input_counts(&self, pin: BoardPin) -> u16 {
        *self.analog_counts.get(&pin).unwrap_or(&0)
    }
}

#[test]
fn nano_port_registers_drive_gpio_levels() {
    let mut mcu = NanoMcu::new(TestNanoBoard::default());

    mcu.write_data(DDRB, 1 << 5);
    mcu.write_data(PORTB, 1 << 5);
    assert_eq!(mcu.bus.board.level(BoardPin::Digital(13)), 1);

    mcu.write_data(PORTB, 0x00);
    assert_eq!(mcu.bus.board.level(BoardPin::Digital(13)), 0);
}

#[test]
fn nano_null_board_tracks_output_levels_and_pullups() {
    let mut mcu = NanoMcu::new(NullNanoBoard::default());

    mcu.write_data(DDRB, 1 << 5);
    mcu.write_data(PORTB, 1 << 5);
    assert_eq!(mcu.bus.board.read_pin(BoardPin::Digital(13)), 1);

    mcu.write_data(DDRD, 0x00);
    mcu.write_data(PORTD, 1 << 2);
    assert_eq!(mcu.bus.board.read_pin(BoardPin::Digital(2)), 1);
}

#[test]
fn nano_spi_mmio_routes_bytes() {
    let mut board = TestNanoBoard::default();
    board.spi_responses = VecDeque::from([0xAB]);
    let mut mcu = NanoMcu::new(board);

    mcu.write_data(DDRB, (1 << 2) | (1 << 3) | (1 << 5));
    mcu.write_data(PORTB, 1 << 2);
    mcu.write_data(NANO_SPCR, SPE | MSTR);
    mcu.write_data(NANO_SPDR, 0x55);

    assert_eq!(mcu.read_data(NANO_SPDR), 0xAB);
    assert_eq!(mcu.bus.board.spi_log, vec![0x55]);
}

#[test]
fn nano_twi_mmio_status_sequence() {
    let mut board = TestNanoBoard::default();
    board.i2c_preview_ok = true;
    board
        .i2c_reads
        .insert(0x44, encode_measurement_payload(23.45, 56.78).to_vec());
    let mut mcu = NanoMcu::new(board);

    mcu.write_data(TWCR, TWEN | TWEA);
    mcu.write_data(TWCR, TWEN | TWEA | TWINT | TWSTA);
    assert_eq!(mcu.read_data(TWSR) & 0xF8, TW_START);

    mcu.write_data(TWDR, 0x44 << 1);
    mcu.write_data(TWCR, TWEN | TWEA | TWINT);
    assert_eq!(mcu.read_data(TWSR) & 0xF8, TW_MT_SLA_ACK);

    mcu.write_data(TWDR, 0x24);
    mcu.write_data(TWCR, TWEN | TWEA | TWINT);
    assert_eq!(mcu.read_data(TWSR) & 0xF8, TW_MT_DATA_ACK);

    mcu.write_data(TWDR, 0x00);
    mcu.write_data(TWCR, TWEN | TWEA | TWINT);
    assert_eq!(mcu.read_data(TWSR) & 0xF8, TW_MT_DATA_ACK);

    mcu.write_data(TWCR, TWEN | TWEA | TWINT | TWSTO);

    mcu.write_data(TWCR, TWEN | TWEA | TWINT | TWSTA);
    mcu.write_data(TWDR, (0x44 << 1) | 0x01);
    mcu.write_data(TWCR, TWEN | TWEA | TWINT);
    assert_eq!(mcu.read_data(TWSR) & 0xF8, TW_MR_SLA_ACK);

    let mut payload = Vec::new();
    for index in 0..6 {
        let mut control = TWEN | TWINT;
        if index < 5 {
            control |= TWEA;
        }
        mcu.write_data(TWCR, control);
        let expected = if index < 5 {
            TW_MR_DATA_ACK
        } else {
            TW_MR_DATA_NACK
        };
        assert_eq!(mcu.read_data(TWSR) & 0xF8, expected);
        payload.push(mcu.read_data(TWDR));
    }

    let (temp_c, rh_percent) = decode_measurement_payload(&payload);
    assert!((temp_c - 23.45).abs() <= 0.03);
    assert!((rh_percent - 56.78).abs() <= 0.03);
}

#[test]
fn nano_usart_tx_and_rx() {
    let mut mcu = NanoMcu::new(TestNanoBoard::default());

    mcu.write_data(NANO_UBRR0L, 0);
    mcu.write_data(NANO_UCSR0B, TXEN0);
    assert_ne!(mcu.read_data(NANO_UCSR0A) & UDRE0, 0);

    mcu.write_data(NANO_UDR0, b'A');
    assert_eq!(mcu.bus.serial0.tx_log, Vec::<u8>::new());
    mcu.advance_cycles(200);
    assert_eq!(mcu.bus.serial0.tx_log, vec![b'A']);

    mcu.write_data(NANO_UCSR0B, RXEN0);
    mcu.bus.serial0.inject_rx(b"Z");
    mcu.advance_cycles(1);
    assert_ne!(mcu.read_data(NANO_UCSR0A) & RXC0, 0);
    assert_eq!(mcu.read_data(NANO_UDR0), b'Z');
}

#[test]
fn mega_port_registers_drive_leds() {
    let mut mcu = MegaMcu::new(TestMegaBoard::default());

    mcu.write_data(DDRC, 0xF0);
    mcu.write_data(PORTC, 0xA0);

    assert_eq!(mcu.bus.board.sensor_status_leds(), (true, false, true, false));
}

#[test]
fn mega_spi_chip_select_routing_matches_runtime_bus_behavior() {
    let mut board = TestMegaBoard::default();
    board.can_responses = VecDeque::from([0xA1]);
    board.rtd_responses = VecDeque::from([0xB2]);
    let mut mcu = MegaMcu::new(board);

    mcu.write_data(DDRA, (1 << 4) | (1 << 5));
    mcu.write_data(PORTA, (1 << 4) | (1 << 5));
    mcu.write_data(MEGA_SPCR, SPE | MSTR);

    mcu.write_data(PORTA, 1 << 5);
    mcu.write_data(MEGA_SPDR, 0x11);
    assert_eq!(mcu.read_data(MEGA_SPDR), 0xA1);
    assert_eq!(mcu.bus.board.can_log, vec![0x11]);

    mcu.write_data(PORTA, 1 << 4);
    mcu.write_data(MEGA_SPDR, 0x22);
    assert_eq!(mcu.read_data(MEGA_SPDR), 0xB2);
    assert_eq!(mcu.bus.board.rtd_log, vec![0x22]);
}

#[test]
fn mega_adc_reads_feedback_counts() {
    let mut board = TestMegaBoard::default();
    board.analog_counts.insert(BoardPin::Analog(10), 767);
    let mut mcu = MegaMcu::new(board);

    mcu.write_data(ADMUX, 0x02);
    mcu.write_data(ADCSRB, MUX5);
    mcu.write_data(ADCSRA, ADEN | ADSC | 0x07);
    mcu.advance_cycles(1700);

    let adc_value = (mcu.read_data(ADCL) as u16) | ((mcu.read_data(ADCH) as u16) << 8);
    assert!((766..=768).contains(&adc_value));
    assert_eq!(mcu.read_data(ADCSRA) & ADSC, 0);
    assert_ne!(mcu.read_data(ADCSRA) & ADIF, 0);
}

#[test]
fn mega_null_board_reports_no_lcd_key_pressed_on_a0() {
    let mut mcu = MegaMcu::new(NullMegaBoard::default());

    mcu.write_data(ADMUX, 0x00);
    mcu.write_data(ADCSRB, 0x00);
    mcu.write_data(ADCSRA, ADEN | ADSC | 0x07);
    mcu.advance_cycles(1700);

    let adc_value = (mcu.read_data(ADCL) as u16) | ((mcu.read_data(ADCH) as u16) << 8);
    assert_eq!(adc_value, 1023);
}

#[test]
fn mega_null_board_tracks_output_levels_pullups_and_idle_spi_chip_selects() {
    let mut mcu = MegaMcu::new(NullMegaBoard::default());

    mcu.write_data(DDRA, (1 << 4) | (1 << 5));
    mcu.write_data(PORTA, (1 << 4) | (1 << 5));
    assert_eq!(mcu.bus.board.read_pin(BoardPin::Digital(26)), 1);
    assert_eq!(mcu.bus.board.read_pin(BoardPin::Digital(27)), 1);

    mcu.write_data(MEGA_SPCR, SPE | MSTR);
    mcu.write_data(MEGA_SPDR, 0x55);
    assert!(!mcu.bus.spi_transaction_active_can);
    assert!(!mcu.bus.spi_transaction_active_rtd);

    mcu.write_data(PORTA, 1 << 5);
    mcu.write_data(MEGA_SPDR, 0xAA);
    assert!(mcu.bus.spi_transaction_active_can);
    assert!(!mcu.bus.spi_transaction_active_rtd);

    mcu.write_data(DDRA, 0x00);
    mcu.write_data(PORTA, 1 << 2);
    assert_eq!(mcu.bus.board.read_pin(BoardPin::Digital(24)), 1);
}

#[test]
fn mega_timer5b_pwm_maps_to_d45() {
    let mut mcu = MegaMcu::new(TestMegaBoard::default());

    mcu.write_data(OCR5BL, 77);

    assert_eq!(mcu.bus.board.pwm_duty.get(&BoardPin::Digital(45)).copied(), Some(77));
}

#[test]
fn mega_usart_tx_and_rx() {
    let mut mcu = MegaMcu::new(TestMegaBoard::default());

    mcu.write_data(MEGA_UBRR0L, 0);
    mcu.write_data(MEGA_UCSR0B, TXEN0);
    assert_ne!(mcu.read_data(MEGA_UCSR0A) & UDRE0, 0);

    mcu.write_data(MEGA_UDR0, b'M');
    assert_eq!(mcu.bus.serial0.tx_log, Vec::<u8>::new());
    mcu.advance_cycles(200);
    assert_eq!(mcu.bus.serial0.tx_log, vec![b'M']);

    mcu.write_data(MEGA_UCSR0B, RXEN0);
    mcu.bus.serial0.inject_rx(b"Z");
    mcu.advance_cycles(1);
    assert_ne!(mcu.read_data(MEGA_UCSR0A) & RXC0, 0);
    assert_eq!(mcu.read_data(MEGA_UDR0), b'Z');
}

#[test]
fn mega_eeprom_write_then_read_returns_stored_byte() {
    let mut mcu = MegaMcu::new(TestMegaBoard::default());

    mcu.write_data(EEARL, 0x34);
    mcu.write_data(EEARH, 0x01);
    mcu.write_data(EEDR, 0xA5);
    mcu.write_data(EECR, EEMPE);
    mcu.write_data(EECR, EEPE);
    assert_eq!(mcu.bus.eeprom[0x134], 0xA5);

    mcu.write_data(EEDR, 0x00);
    mcu.write_data(EECR, EERE);
    assert_eq!(mcu.read_data(EEDR), 0xA5);

    // Without arming, EEPE stores nothing.
    mcu.write_data(EEDR, 0x11);
    mcu.write_data(EECR, EEPE);
    assert_eq!(mcu.bus.eeprom[0x134], 0xA5);
}
