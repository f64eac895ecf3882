use avrsim::mcu::atmega2560::{
    Atmega2560Bus, NullMegaBoard, ADCH, ADCL, ADCSRA, ADCSRB, DDRL, EECR, EEARH, EEARL, EEDR,
    MEGA_IO_SPAN, PINL, PORTL,
};
use avrsim::mcu::atmega328p::{
    Atmega328pBus, NullNanoBoard, DDRB, NANO_IO_SPAN, PINB, PORTB, UBRR0L, UCSR0B, UDR0,
};
use avrsim::mcu::common::{BoardPin, PinMap, SerialState, Timer0State};

const TXEN0: u8 = 1 << 3;
const ADEN: u8 = 1 << 7;
const ADSC: u8 = 1 << 6;
const MUX5: u8 = 1 << 3;

fn mega_write(bus: &mut Atmega2560Bus<NullMegaBoard>, data: &mut [u8], address: usize, value: u8) {
    if !bus.write_data(data, 0, address, value) {
        data[address] = value;
    }
}

fn mega_read(bus: &mut Atmega2560Bus<NullMegaBoard>, data: &mut [u8], address: usize) -> u8 {
    match bus.read_data(data, 0, address) {
        Some(value) => value,
        None => data[address],
    }
}

#[test]
fn fixed_pin_map_keeps_digital_and_analog_slots_distinct() {
    let mut pins = PinMap::default();
    pins.insert(BoardPin::Digital(0), 1u8);
    pins.insert(BoardPin::Analog(0), 2u8);

    assert_eq!(pins.get(BoardPin::Digital(0)), Some(1));
    assert_eq!(pins.get(BoardPin::Analog(0)), Some(2));

    pins.remove(BoardPin::Digital(0));
    assert_eq!(pins.get(BoardPin::Digital(0)), None);
    assert_eq!(pins.get(BoardPin::Analog(0)), Some(2));
}

#[test]
fn fixed_pin_map_ignores_out_of_range_board_pins() {
    let mut pins = PinMap::default();
    pins.insert(BoardPin::Digital(54), 1u8);
    pins.insert(BoardPin::Analog(16), 1u8);

    assert_eq!(pins.get(BoardPin::Digital(54)), None);
    assert_eq!(pins.get(BoardPin::Analog(16)), None);
}

#[test]
fn timer_advance_handles_many_ticks_without_iterating_each_tick() {
    let mut timer = Timer0State::default();
    let mut counter = 250u8;
    let mut flags = 0u8;

    timer.advance(600, Some(1), &mut counter, &mut flags, 0x04, 0x02, 0x04);

    assert_eq!(counter, 82);
    assert_eq!(flags & 0x02, 0x02);
    assert!(timer.interrupt_pending);
}

#[test]
fn timer_keeps_cycles_short_of_a_tick_for_later() {
    let mut timer = Timer0State::default();
    let mut counter = 0u8;
    let mut flags = 0u8;

    timer.advance(100, Some(64), &mut counter, &mut flags, 0, 0x01, 0x01);
    assert_eq!(counter, 1);
    assert_eq!(timer.cycle_remainder, 36);

    timer.advance(28, Some(64), &mut counter, &mut flags, 0, 0x01, 0x01);
    assert_eq!(counter, 2);
    assert_eq!(timer.cycle_remainder, 0);
    assert_eq!(flags, 0);
    assert!(!timer.interrupt_pending);
}

#[test]
fn stopped_timer_drops_its_remainder() {
    let mut timer = Timer0State::default();
    let mut counter = 7u8;
    let mut flags = 0u8;
    timer.advance(10, Some(64), &mut counter, &mut flags, 0, 0x01, 0x01);
    assert_eq!(timer.cycle_remainder, 10);
    timer.advance(1000, None, &mut counter, &mut flags, 0, 0x01, 0x01);
    assert_eq!(timer.cycle_remainder, 0);
    assert_eq!(counter, 7);
}

#[test]
fn timer_overflow_deadline_counts_remaining_ticks() {
    let timer = Timer0State::default();
    assert_eq!(timer.overflow_deadline_cycles(None, 0), None);
    assert_eq!(timer.overflow_deadline_cycles(Some(8), 250), Some(48));
    assert_eq!(timer.overflow_deadline_cycles(Some(1), 255), Some(1));
}

#[test]
fn serial_frame_cycles_follow_the_baud_divider() {
    assert_eq!(SerialState::frame_cycles(16_000_000, 103, false), 16 * 104 * 10);
    assert_eq!(SerialState::frame_cycles(16_000_000, 16, true), 8 * 17 * 10);
}

#[test]
fn nano_bus_captures_serial_output() {
    let mut bus = Atmega328pBus::new(NullNanoBoard::default(), 16_000_000);
    let mut data = vec![0u8; 0x900];
    bus.reset(&mut data);

    assert!(bus.write_data(&mut data, 0, UBRR0L, 0));
    assert!(bus.write_data(&mut data, 0, UCSR0B, TXEN0));
    assert!(bus.write_data(&mut data, 0, UDR0, b'A'));
    bus.after_step(&mut data, 200);

    assert_eq!(bus.serial0.tx_log, vec![b'A']);
}

#[test]
fn nano_bus_reports_host_pin_levels() {
    let mut bus = Atmega328pBus::new(NullNanoBoard::default(), 16_000_000);
    let mut data = vec![0u8; 0x900];
    assert!(data.len() >= NANO_IO_SPAN);
    bus.reset(&mut data);

    assert!(bus.write_data(&mut data, 0, DDRB, 1 << 5));
    assert!(bus.write_data(&mut data, 0, PORTB, 1 << 5));

    let levels = bus.host_pin_levels();
    let d13 = levels
        .into_iter()
        .find(|entry| entry.pin == BoardPin::Digital(13))
        .expect("D13 snapshot");
    assert_eq!(d13.level, 1);
    assert_eq!(bus.read_data(&mut data, 0, PINB), Some(1 << 5));
}

#[test]
fn mega_bus_reports_host_pin_levels() {
    let mut bus = Atmega2560Bus::new(NullMegaBoard::default(), 16_000_000);
    let mut data = vec![0u8; 0x2200];
    assert!(data.len() >= MEGA_IO_SPAN);
    bus.reset(&mut data);

    assert!(bus.write_data(&mut data, 0, DDRL, 1 << 5));
    assert!(bus.write_data(&mut data, 0, PORTL, 1 << 5));

    let levels = bus.host_pin_levels();
    let d44 = levels
        .into_iter()
        .find(|entry| entry.pin == BoardPin::Digital(44))
        .expect("D44 snapshot");
    assert_eq!(d44.level, 1);
    assert_eq!(bus.read_data(&mut data, 0, PINL), Some(1 << 5));
}

#[test]
fn mega_cpu_can_complete_adc_conversion() {
    let mut bus = Atmega2560Bus::new(NullMegaBoard::default(), 16_000_000);
    let mut data = vec![0u8; 0x2200];
    bus.reset(&mut data);

    mega_write(&mut bus, &mut data, ADCSRB, MUX5);
    mega_write(&mut bus, &mut data, ADCSRA, ADEN | ADSC | 0x07);
    bus.after_step(&mut data, 1700);

    let value = data[ADCL] as u16 | ((data[ADCH] as u16) << 8);
    assert_eq!(value, 0);
    assert_eq!(data[ADCSRA] & ADSC, 0);
}

#[test]
fn mega_eeprom_round_trip() {
    let mut bus = Atmega2560Bus::new(NullMegaBoard::default(), 16_000_000);
    let mut data = vec![0u8; 0x2200];
    bus.reset(&mut data);
    const EERE: u8 = 1 << 0;
    const EEPE: u8 = 1 << 1;
    const EEMPE: u8 = 1 << 2;

    mega_write(&mut bus, &mut data, EEARL, 0x34);
    mega_write(&mut bus, &mut data, EEARH, 0x02);
    mega_write(&mut bus, &mut data, EEDR, 0x5A);
    mega_write(&mut bus, &mut data, EECR, EEMPE);
    mega_write(&mut bus, &mut data, EECR, EEPE);

    mega_write(&mut bus, &mut data, EEDR, 0x00);
    mega_write(&mut bus, &mut data, EECR, EERE);
    assert_eq!(mega_read(&mut bus, &mut data, EEDR), 0x5A);
}
