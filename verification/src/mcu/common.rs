//! Pins, a fixed pin map, and the timer, USART and ADC state machines that
//! both microcontroller models share.

use vstd::prelude::*;

use std::collections::VecDeque;

verus! {

/// Direction and pull-up configuration of a GPIO pin.
#[derive(Debug, Clone, Copy, PartialEq, Eq, Structural, Hash)]
pub enum PinMode {
    Input,
    Output,
    InputPullup,
}

/// A host-board pin by its Arduino name: `D<n>` or `A<n>`.
#[derive(Debug, Clone, Copy, PartialEq, Eq, Structural, Hash)]
pub enum BoardPin {
    Digital(u8),
    Analog(u8),
}

/// A pin together with its logic level.
#[derive(Debug, Clone, Copy, PartialEq, Eq, Structural)]
pub struct BoardPinLevel {
    pub pin: BoardPin,
    pub level: u8,
}

pub const DIGITAL_PIN_SLOTS: usize = 54;
pub const ANALOG_PIN_SLOTS: usize = 16;
pub const PIN_SLOTS: usize = 70;

/// Slot of a pin in a [`PinMap`]: digital pins first, then analog pins;
/// pins beyond the largest board have none.
pub open spec fn spec_pin_slot(pin: BoardPin) -> Option<int> {
    match pin {
        BoardPin::Digital(i) => if (i as int) < 54 {
            Some(i as int)
        } else {
            None
        },
        BoardPin::Analog(i) => if (i as int) < 16 {
            Some(54 + i as int)
        } else {
            None
        },
    }
}

pub fn pin_slot(pin: BoardPin) -> (r: Option<usize>)
    ensures
        match spec_pin_slot(pin) {
            Some(k) => r == Some(k as usize),
            None => r is None,
        },
        r matches Some(k) ==> k < PIN_SLOTS,
{
    match pin {
        BoardPin::Digital(index) => {
            if (index as usize) < DIGITAL_PIN_SLOTS {
                Some(index as usize)
            } else {
                None
            }
        },
        BoardPin::Analog(index) => {
            if (index as usize) < ANALOG_PIN_SLOTS {
                Some(DIGITAL_PIN_SLOTS + index as usize)
            } else {
                None
            }
        },
    }
}

/// Two pins share a slot only when they are the same pin.
pub proof fn lemma_pin_slot_injective(a: BoardPin, b: BoardPin)
    requires
        spec_pin_slot(a) is Some,
        spec_pin_slot(a) == spec_pin_slot(b),
    ensures
        a == b,
{
}

/// A value per host-board pin, stored in one fixed slot per pin.
#[derive(Debug, Clone)]
pub struct PinMap<T: Copy> {
    values: Vec<Option<T>>,
}

impl<T: Copy> PinMap<T> {
    /// One slot per pin.
    pub closed spec fn wf(&self) -> bool {
        self.values@.len() == PIN_SLOTS
    }

    /// The value held for a pin.
    pub closed spec fn lookup(&self, pin: BoardPin) -> Option<T> {
        match spec_pin_slot(pin) {
            Some(k) => if k < self.values@.len() {
                self.values@[k]
            } else {
                None
            },
            None => None,
        }
    }

    /// A map that holds no value.
    pub fn new() -> (m: Self)
        ensures
            m.wf(),
            forall|pin: BoardPin| #[trigger] m.lookup(pin) is None,
    {
        let mut values: Vec<Option<T>> = Vec::new();
        let mut i: usize = 0;
        while i < PIN_SLOTS
            invariant
                i <= PIN_SLOTS,
                values@.len() == i,
                forall|j: int| 0 <= j < i ==> #[trigger] values@[j] is None,
            decreases PIN_SLOTS - i,
        {
            values.push(None);
            i = i + 1;
        }
        PinMap { values }
    }

    pub fn get(&self, pin: BoardPin) -> (r: Option<T>)
        ensures
            r == self.lookup(pin),
    {
        match pin_slot(pin) {
            Some(index) => if index < self.values.len() {
                self.values[index]
            } else {
                None
            },
            None => None,
        }
    }

    /// Stores a value for a pin; pins without a slot are ignored.
    pub fn insert(&mut self, pin: BoardPin, value: T)
        ensures
            final(self).wf() == old(self).wf(),
            old(self).wf() && spec_pin_slot(pin) is Some ==> final(self).lookup(pin) == Some(value),
            forall|other: BoardPin|
                other != pin ==> #[trigger] final(self).lookup(other) == old(self).lookup(other),
            spec_pin_slot(pin) is None ==> final(self).lookup(pin) is None,
    {
        let slot = pin_slot(pin);
        if slot.is_some() && slot.unwrap() < self.values.len() {
            let index = slot.unwrap();
            self.values.set(index, Some(value));
            proof {
                assert forall|other: BoardPin|
                    other != pin implies #[trigger] self.lookup(other) == old(self).lookup(
                        other,
                    ) by {
                    if spec_pin_slot(other) is Some && spec_pin_slot(other) == spec_pin_slot(pin) {
                        lemma_pin_slot_injective(other, pin);
                    }
                }
            }
        }
    }

    /// Forgets the value held for a pin.
    pub fn remove(&mut self, pin: BoardPin)
        ensures
            final(self).wf() == old(self).wf(),
            final(self).lookup(pin) is None,
            forall|other: BoardPin|
                other != pin ==> #[trigger] final(self).lookup(other) == old(self).lookup(other),
    {
        let slot = pin_slot(pin);
        if slot.is_some() && slot.unwrap() < self.values.len() {
            let index = slot.unwrap();
            self.values.set(index, None);
            proof {
                assert forall|other: BoardPin|
                    other != pin implies #[trigger] self.lookup(other) == old(self).lookup(
                        other,
                    ) by {
                    if spec_pin_slot(other) is Some && spec_pin_slot(other) == spec_pin_slot(pin) {
                        lemma_pin_slot_injective(other, pin);
                    }
                }
            }
        }
    }
}

impl<T: Copy> Default for PinMap<T> {
    fn default() -> (m: Self)
        ensures
            m.wf(),
            forall|pin: BoardPin| #[trigger] m.lookup(pin) is None,
    {
        PinMap::new()
    }
}

/// Position of a pin among all pins a `BoardPin` can name.
pub open spec fn spec_pin_code(pin: BoardPin) -> int {
    match pin {
        BoardPin::Digital(i) => i as int,
        BoardPin::Analog(i) => 256 + i as int,
    }
}

pub fn pin_code(pin: BoardPin) -> (r: usize)
    ensures
        r == spec_pin_code(pin),
        r < 512,
{
    match pin {
        BoardPin::Digital(i) => i as usize,
        BoardPin::Analog(i) => 256 + i as usize,
    }
}

pub proof fn lemma_pin_code_injective(a: BoardPin, b: BoardPin)
    requires
        spec_pin_code(a) == spec_pin_code(b),
    ensures
        a == b,
{
}

/// A value for any pin a `BoardPin` can name, one slot per pin.
#[derive(Debug, Clone)]
pub struct PinTable<V: Copy> {
    slots: Vec<Option<V>>,
}

impl<V: Copy> PinTable<V> {
    /// One slot per pin.
    pub closed spec fn wf(&self) -> bool {
        self.slots@.len() == 512
    }

    pub closed spec fn lookup(&self, pin: BoardPin) -> Option<V> {
        if spec_pin_code(pin) < self.slots@.len() {
            self.slots@[spec_pin_code(pin)]
        } else {
            None
        }
    }

    pub fn new() -> (t: Self)
        ensures
            t.wf(),
            forall|pin: BoardPin| #[trigger] t.lookup(pin) is None,
    {
        let mut slots: Vec<Option<V>> = Vec::new();
        let mut i: usize = 0;
        while i < 512
            invariant
                i <= 512,
                slots@.len() == i,
                forall|j: int| 0 <= j < i ==> #[trigger] slots@[j] is None,
            decreases 512 - i,
        {
            slots.push(None);
            i = i + 1;
        }
        PinTable { slots }
    }

    pub fn get(&self, pin: BoardPin) -> (r: Option<V>)
        ensures
            r == self.lookup(pin),
    {
        let k = pin_code(pin);
        if k < self.slots.len() {
            self.slots[k]
        } else {
            None
        }
    }

    pub fn insert(&mut self, pin: BoardPin, value: V)
        ensures
            old(self).wf() ==> final(self).wf(),
            final(self).lookup(pin) == Some(value),
            forall|other: BoardPin|
                other != pin ==> #[trigger] final(self).lookup(other) == old(self).lookup(other),
    {
        let k = pin_code(pin);
        if self.slots.len() <= k {
            while self.slots.len() < 512
                invariant
                    old(self).slots@.len() <= self.slots@.len() <= 512,
                    forall|j: int| 0 <= j < old(self).slots@.len() ==> self.slots@[j] == old(self).slots@[j],
                    forall|j: int| old(self).slots@.len() <= j < self.slots@.len() ==> self.slots@[j] is None,
                decreases 512 - self.slots.len(),
            {
                self.slots.push(None);
            }
        }
        self.slots.set(k, Some(value));
        proof {
            assert forall|other: BoardPin|
                other != pin implies #[trigger] self.lookup(other) == old(self).lookup(other) by {
                if spec_pin_code(other) == spec_pin_code(pin) {
                    lemma_pin_code_injective(other, pin);
                }
            }
        }
    }

    pub fn remove(&mut self, pin: BoardPin)
        ensures
            final(self).wf() == old(self).wf(),
            final(self).lookup(pin) is None,
            forall|other: BoardPin|
                other != pin ==> #[trigger] final(self).lookup(other) == old(self).lookup(other),
    {
        let k = pin_code(pin);
        if k >= self.slots.len() {
            return ;
        }
        self.slots.set(k, None);
        proof {
            assert forall|other: BoardPin|
                other != pin implies #[trigger] self.lookup(other) == old(self).lookup(other) by {
                if spec_pin_code(other) == spec_pin_code(pin) {
                    lemma_pin_code_injective(other, pin);
                }
            }
        }
    }
}

/// SPI control and status registers as seen by a board during a transfer.
#[derive(Debug, Clone, Copy, PartialEq, Eq, Structural)]
pub struct SpiSettings {
    pub spcr: u8,
    pub spsr: u8,
}

impl Default for SpiSettings {
    fn default() -> (s: Self)
        ensures
            s.spcr == 0 && s.spsr == 0,
    {
        SpiSettings { spcr: 0, spsr: 0 }
    }
}

// ---------------------------------------------------------------------------
// Timer/Counter0
// ---------------------------------------------------------------------------

/// Timer/Counter0: the clock cycles not yet turned into ticks, and whether an
/// overflow interrupt waits to be taken.
#[derive(Debug, Clone)]
pub struct Timer0State {
    pub cycle_remainder: u32,
    pub interrupt_pending: bool,
}

impl Default for Timer0State {
    fn default() -> (t: Self)
        ensures
            t.cycle_remainder == 0,
            !t.interrupt_pending,
    {
        Timer0State { cycle_remainder: 0, interrupt_pending: false }
    }
}

/// `a * b`, saturated at `u32::MAX`.
pub open spec fn spec_sat_mul_u32(a: int, b: int) -> int {
    if a * b > u32::MAX {
        u32::MAX as int
    } else {
        a * b
    }
}

/// `a - b`, saturated at 0.
pub open spec fn spec_sat_sub(a: int, b: int) -> int {
    if a < b {
        0
    } else {
        a - b
    }
}

/// Timer/Counter0 after `cycles` clock cycles: the effect of
/// [`Timer0State::advance`] on the timer and on `TCNT0`/`TIFR0`.
pub open spec fn spec_timer_advance(
    t: Timer0State,
    cycles: u32,
    prescaler: Option<u32>,
    tcnt0: u8,
    tifr0: u8,
    timsk0: u8,
    tov_mask: u8,
    toie_mask: u8,
    t_after: Timer0State,
    tcnt0_after: u8,
    tifr0_after: u8,
) -> bool {
    match prescaler {
        None => {
            &&& t_after.cycle_remainder == 0
            &&& t_after.interrupt_pending == t.interrupt_pending
            &&& tcnt0_after == tcnt0
            &&& tifr0_after == tifr0
        },
        Some(p) => {
            let total = t.cycle_remainder + cycles;
            let ticks = total / (p as int);
            let counter = tcnt0 + ticks;
            &&& t_after.cycle_remainder == total % (p as int)
            &&& tcnt0_after == (if ticks == 0 {
                tcnt0 as int
            } else {
                counter % 256
            })
            &&& tifr0_after == (if ticks > 0 && counter >= 256 {
                tifr0 | tov_mask
            } else {
                tifr0
            })
            &&& t_after.interrupt_pending == (t.interrupt_pending || (ticks > 0 && counter >= 256
                && (timsk0 & toie_mask) != 0))
        },
    }
}

impl Timer0State {
    pub fn reset(&mut self)
        ensures
            final(self).cycle_remainder == 0,
            !final(self).interrupt_pending,
    {
        self.cycle_remainder = 0;
        self.interrupt_pending = false;
    }

    /// Lets `cycles` clock cycles pass through the prescaler (`None`: the
    /// timer is stopped), counting `TCNT0` up and flagging an overflow in
    /// `TIFR0` (and a pending interrupt when `TIMSK0` enables it).
    pub fn advance(
        &mut self,
        cycles: u32,
        prescaler: Option<u32>,
        tcnt0: &mut u8,
        tifr0: &mut u8,
        timsk0: u8,
        tov_mask: u8,
        toie_mask: u8,
    )
        requires
            prescaler matches Some(p) ==> p > 0,
            prescaler is Some ==> old(self).cycle_remainder + cycles <= u32::MAX,
        ensures
            spec_timer_advance(
                *old(self),
                cycles,
                prescaler,
                *old(tcnt0),
                *old(tifr0),
                timsk0,
                tov_mask,
                toie_mask,
                *final(self),
                *final(tcnt0),
                *final(tifr0),
            ),
    {
        let p = match prescaler {
            Some(p) => p,
            None => {
                self.cycle_remainder = 0;
                return ;
            },
        };
        let total_cycles = self.cycle_remainder + cycles;
        let tick_count = total_cycles / p;
        self.cycle_remainder = total_cycles % p;
        if tick_count == 0 {
            return ;
        }
        let counter_total: u64 = (*tcnt0 as u64) + (tick_count as u64);
        *tcnt0 = (counter_total % 256) as u8;
        if counter_total >= 256 {
            *tifr0 = *tifr0 | tov_mask;
            if (timsk0 & toie_mask) != 0 {
                self.interrupt_pending = true;
            }
        }
    }

    /// Cycles until the next overflow (at least one), or `None` while the
    /// timer is stopped.
    pub fn overflow_deadline_cycles(&self, prescaler: Option<u32>, tcnt0: u8) -> (r: Option<u64>)
        ensures
            match prescaler {
                None => r is None,
                Some(p) => {
                    let until = spec_sat_sub(
                        spec_sat_mul_u32(256 - tcnt0, p as int),
                        self.cycle_remainder as int,
                    );
                    r == Some((if until < 1 {
                        1
                    } else {
                        until
                    }) as u64)
                },
            },
    {
        let p = match prescaler {
            Some(p) => p,
            None => {
                return None;
            },
        };
        let ticks_until_overflow: u32 = 256u32 - (tcnt0 as u32);
        assert((ticks_until_overflow as u64) * (p as u64) <= 256 * 0xFFFF_FFFFu64) by (nonlinear_arith)
            requires
                ticks_until_overflow <= 256,
                p <= 0xFFFF_FFFFu32,
        ;
        let product: u64 = (ticks_until_overflow as u64) * (p as u64);
        let saturated: u32 = if product > 0xFFFF_FFFFu64 {
            0xFFFF_FFFFu32
        } else {
            product as u32
        };
        let cycles_until = saturated.saturating_sub(self.cycle_remainder);
        let at_least_one = if cycles_until < 1 {
            1
        } else {
            cycles_until
        };
        Some(at_least_one as u64)
    }
}

/// Ticks and remainder account for every cycle that went in.
pub proof fn law_timer_cycles_conserved(before_remainder: u32, cycles: u32, prescaler: u32, ticks: int, after_remainder: int)
    requires
        prescaler > 0,
        ticks == (before_remainder + cycles) / (prescaler as int),
        after_remainder == (before_remainder + cycles) % (prescaler as int),
    ensures
        ticks * prescaler + after_remainder == before_remainder + cycles,
        0 <= after_remainder < prescaler,
{
    let total = before_remainder + cycles;
    assert(total == (prescaler as int) * (total / (prescaler as int)) + total % (prescaler as int)) by (nonlinear_arith)
        requires prescaler > 0;
    assert(ticks * prescaler == (prescaler as int) * ticks) by (nonlinear_arith);
}

/// Timer/Counter0 counts one tick per `prescaler` clock cycles, whatever
/// way the elapsed time is cut up: letting `a` cycles and then `b` cycles
/// pass leaves `TCNT0` and the cycle remainder where letting `a + b` cycles
/// pass at once would, and `TOV0` is set exactly when the ticks carried the
/// counter past 255. A stopped timer neither counts nor flags an overflow.
pub proof fn law_timer_ticks_compose(
    t0: Timer0State,
    a: u32,
    b: u32,
    prescaler: Option<u32>,
    tcnt0: u8,
    tifr0: u8,
    timsk0: u8,
    tov_mask: u8,
    toie_mask: u8,
    t1: Timer0State,
    tcnt1: u8,
    tifr1: u8,
    t2: Timer0State,
    tcnt2: u8,
    tifr2: u8,
)
    requires
        prescaler matches Some(p) ==> p > 0,
        spec_timer_advance(t0, a, prescaler, tcnt0, tifr0, timsk0, tov_mask, toie_mask, t1, tcnt1, tifr1),
        spec_timer_advance(t1, b, prescaler, tcnt1, tifr1, timsk0, tov_mask, toie_mask, t2, tcnt2, tifr2),
    ensures
        prescaler is None ==> tcnt2 == tcnt0 && tifr2 == tifr0,
        prescaler matches Some(p) ==> {
            let ticks = (t0.cycle_remainder + a + b) / (p as int);
            &&& tcnt2 == (tcnt0 + ticks) % 256
            &&& t2.cycle_remainder == (t0.cycle_remainder + a + b) % (p as int)
            &&& tcnt0 + ticks >= 256 ==> (tifr2 & tov_mask) == tov_mask
            &&& tcnt0 + ticks < 256 ==> tifr2 == tifr0
        },
{
    if let Some(p) = prescaler {
        let pi = p as int;
        let x = t0.cycle_remainder + a;
        let k1 = x / pi;
        let r1 = x % pi;
        let k2 = (r1 + b) / pi;
        let r2 = (r1 + b) % pi;
        vstd::arithmetic::div_mod::lemma_fundamental_div_mod(x, pi);
        vstd::arithmetic::div_mod::lemma_fundamental_div_mod(r1 + b, pi);
        vstd::arithmetic::div_mod::lemma_mod_bound(x, pi);
        vstd::arithmetic::div_mod::lemma_mod_bound(r1 + b, pi);
        assert(x + b == (k1 + k2) * pi + r2) by (nonlinear_arith)
            requires
                x == pi * k1 + r1,
                r1 + b == pi * k2 + r2,
        ;
        vstd::arithmetic::div_mod::lemma_fundamental_div_mod_converse(x + b, pi, k1 + k2, r2);
        assert(k1 >= 0 && k2 >= 0) by (nonlinear_arith)
            requires
                x >= 0,
                r1 + b >= 0,
                pi > 0,
                k1 == x / pi,
                k2 == (r1 + b) / pi,
        ;
        let c1 = tcnt0 + k1;
        let f1 = tifr1;
        if k1 > 0 && c1 >= 256 {
            assert((f1 & tov_mask) == tov_mask) by (bit_vector)
                requires
                    f1 == tifr0 | tov_mask,
            ;
        }
        if k2 > 0 && tcnt1 + k2 >= 256 {
            assert((tifr2 & tov_mask) == tov_mask) by (bit_vector)
                requires
                    tifr2 == tifr1 | tov_mask,
            ;
        } else if (f1 & tov_mask) == tov_mask {
            assert(tifr2 == tifr1);
        }
        // the counter's value modulo 256 carries over from the first step
        assert((tcnt1 + k2) % 256 == (tcnt0 + k1 + k2) % 256) by {
            if k1 > 0 {
                vstd::arithmetic::div_mod::lemma_add_mod_noop(tcnt0 + k1, k2, 256);
                vstd::arithmetic::div_mod::lemma_mod_twice(tcnt0 + k1, 256);
                vstd::arithmetic::div_mod::lemma_add_mod_noop(tcnt1 as int, k2, 256);
            }
        }
        if k2 == 0 {
            if k1 > 0 {
                vstd::arithmetic::div_mod::lemma_mod_twice(tcnt0 + k1, 256);
            } else {
                vstd::arithmetic::div_mod::lemma_small_mod(tcnt0 as nat, 256);
            }
        }
        if tcnt0 + k1 + k2 < 256 && k1 > 0 {
            vstd::arithmetic::div_mod::lemma_small_mod((tcnt0 + k1) as nat, 256);
        }
    }
}

// ---------------------------------------------------------------------------
// USART0
// ---------------------------------------------------------------------------

/// USART0: bytes sent so far, bytes waiting to be received, and the byte
/// being shifted out with the cycles it still needs.
#[derive(Debug, Clone)]
pub struct SerialState {
    pub tx_log: Vec<u8>,
    pub rx_queue: VecDeque<u8>,
    pub tx_busy_byte: Option<u8>,
    pub tx_cycles_remaining: i64,
}

impl Default for SerialState {
    fn default() -> (s: Self)
        ensures
            s.tx_log@.len() == 0,
            s.rx_queue@.len() == 0,
            s.tx_busy_byte is None,
            s.tx_cycles_remaining == 0,
    {
        SerialState {
            tx_log: Vec::new(),
            rx_queue: VecDeque::new(),
            tx_busy_byte: None,
            tx_cycles_remaining: 0,
        }
    }
}

/// Clock cycles one 10-bit frame takes at the baud rate that `UBRR0` and
/// `U2X0` select: `10 * divisor * (UBRR0 + 1)`, and 1 for a stopped clock.
pub open spec fn spec_frame_cycles(clock_hz: u32, ubrr: u16, double_speed: bool) -> int {
    if clock_hz == 0 {
        1
    } else {
        10 * (if double_speed {
            8int
        } else {
            16int
        }) * (ubrr + 1)
    }
}

/// USART0 after a write of `UDR0` ([`SerialState::write_udr`]).
pub open spec fn spec_serial_write_udr(
    s: SerialState,
    value: u8,
    clock_hz: u32,
    ubrr: u16,
    double_speed: bool,
    tx_enabled: bool,
    ucsra: u8,
    udre_mask: u8,
    txc_mask: u8,
    s_after: SerialState,
    ucsra_after: u8,
) -> bool {
    &&& s_after.tx_log@ == s.tx_log@
    &&& s_after.rx_queue@ == s.rx_queue@
    &&& if tx_enabled {
        &&& s_after.tx_busy_byte == Some(value)
        &&& s_after.tx_cycles_remaining == spec_frame_cycles(clock_hz, ubrr, double_speed)
        &&& ucsra_after == ucsra & !(udre_mask | txc_mask)
    } else {
        &&& s_after.tx_busy_byte == s.tx_busy_byte
        &&& s_after.tx_cycles_remaining == s.tx_cycles_remaining
        &&& ucsra_after == ucsra
    }
}

/// USART0 after `cycles` clock cycles ([`SerialState::advance`]): a byte
/// whose frame is complete is logged and the transmitter flags rise, then
/// the receive latch is serviced.
pub open spec fn spec_serial_advance(
    s: SerialState,
    cycles: u32,
    ucsra: u8,
    ucsrb: u8,
    udr: u8,
    udre_mask: u8,
    txc_mask: u8,
    rxc_mask: u8,
    rxen_mask: u8,
    s_after: SerialState,
    ucsra_after: u8,
    udr_after: u8,
) -> bool {
    let done = s.tx_busy_byte is Some && s.tx_cycles_remaining - cycles <= 0;
    let mid_ucsra = if done {
        ucsra | (udre_mask | txc_mask)
    } else {
        ucsra
    };
    &&& s_after.tx_log@ == (if done {
        s.tx_log@.push(s.tx_busy_byte->0)
    } else {
        s.tx_log@
    })
    &&& s_after.tx_busy_byte == (if done {
        None
    } else {
        s.tx_busy_byte
    })
    &&& s_after.tx_cycles_remaining == (if done {
        0
    } else if s.tx_busy_byte is Some {
        s.tx_cycles_remaining - cycles
    } else {
        s.tx_cycles_remaining as int
    })
    &&& spec_rx_latch(
        s.rx_queue@,
        mid_ucsra,
        ucsrb,
        udr,
        rxc_mask,
        rxen_mask,
        s_after.rx_queue@,
        ucsra_after,
        udr_after,
    )
}

/// When a byte's frame is done (a byte was shifting out and the elapsed
/// cycles cover what was left of it), the byte is logged and `UDRE0` and
/// `TXC0` are both set: the transmitter is ready for the next byte. Until
/// then nothing is logged and the byte keeps shifting out.
pub proof fn law_serial_frame_completes(
    s: SerialState,
    cycles: u32,
    ucsra: u8,
    ucsrb: u8,
    udr: u8,
    udre_mask: u8,
    txc_mask: u8,
    rxc_mask: u8,
    rxen_mask: u8,
    s_after: SerialState,
    ucsra_after: u8,
    udr_after: u8,
)
    requires
        spec_serial_advance(
            s,
            cycles,
            ucsra,
            ucsrb,
            udr,
            udre_mask,
            txc_mask,
            rxc_mask,
            rxen_mask,
            s_after,
            ucsra_after,
            udr_after,
        ),
    ensures
        s.tx_busy_byte is Some && s.tx_cycles_remaining <= cycles ==> {
            &&& (ucsra_after & udre_mask) == udre_mask
            &&& (ucsra_after & txc_mask) == txc_mask
            &&& s_after.tx_log@ == s.tx_log@.push(s.tx_busy_byte->0)
            &&& s_after.tx_busy_byte is None
        },
        s.tx_busy_byte is Some && s.tx_cycles_remaining > cycles ==> {
            &&& s_after.tx_log@ == s.tx_log@
            &&& s_after.tx_busy_byte == s.tx_busy_byte
            &&& s_after.tx_cycles_remaining == s.tx_cycles_remaining - cycles
        },
        (ucsra & udre_mask) == udre_mask ==> (ucsra_after & udre_mask) == udre_mask,
{
    let mid = ucsra | (udre_mask | txc_mask);
    assert((mid & udre_mask) == udre_mask && (mid & txc_mask) == txc_mask) by (bit_vector)
        requires
            mid == ucsra | (udre_mask | txc_mask),
    ;
    assert(((mid | rxc_mask) & udre_mask) == udre_mask && ((mid | rxc_mask) & txc_mask) == txc_mask)
        by (bit_vector)
        requires
            mid == ucsra | (udre_mask | txc_mask),
    ;
    if (ucsra & udre_mask) == udre_mask {
        assert(((ucsra | rxc_mask) & udre_mask) == udre_mask) by (bit_vector)
            requires
                (ucsra & udre_mask) == udre_mask,
        ;
    }
    assert(((ucsra | (udre_mask | txc_mask)) & udre_mask) == udre_mask) by (bit_vector);
    assert((((ucsra | (udre_mask | txc_mask)) | rxc_mask) & udre_mask) == udre_mask) by (bit_vector);
}

/// A byte written with the transmitter enabled is, once a frame's worth of
/// cycles has passed, in the transmit log, with `UDRE0` and `TXC0` set again.
pub proof fn law_serial_write_then_frame(
    s: SerialState,
    value: u8,
    clock_hz: u32,
    ubrr: u16,
    double_speed: bool,
    ucsra: u8,
    ucsrb: u8,
    udr: u8,
    udre_mask: u8,
    txc_mask: u8,
    rxc_mask: u8,
    rxen_mask: u8,
    cycles: u32,
    s_mid: SerialState,
    ucsra_mid: u8,
    s_after: SerialState,
    ucsra_after: u8,
    udr_after: u8,
)
    requires
        spec_serial_write_udr(s, value, clock_hz, ubrr, double_speed, true, ucsra, udre_mask, txc_mask, s_mid, ucsra_mid),
        spec_serial_advance(
            s_mid,
            cycles,
            ucsra_mid,
            ucsrb,
            udr,
            udre_mask,
            txc_mask,
            rxc_mask,
            rxen_mask,
            s_after,
            ucsra_after,
            udr_after,
        ),
        cycles >= spec_frame_cycles(clock_hz, ubrr, double_speed),
    ensures
        s_after.tx_log@ == s.tx_log@.push(value),
        (ucsra_after & udre_mask) == udre_mask,
        (ucsra_after & txc_mask) == txc_mask,
        s_after.tx_busy_byte is None,
{
    law_serial_frame_completes(
        s_mid,
        cycles,
        ucsra_mid,
        ucsrb,
        udr,
        udre_mask,
        txc_mask,
        rxc_mask,
        rxen_mask,
        s_after,
        ucsra_after,
        udr_after,
    );
}

impl SerialState {
    pub fn reset(&mut self)
        ensures
            final(self).tx_log@.len() == 0,
            final(self).rx_queue@.len() == 0,
            final(self).tx_busy_byte is None,
            final(self).tx_cycles_remaining == 0,
    {
        self.tx_log.clear();
        self.rx_queue.clear();
        self.tx_busy_byte = None;
        self.tx_cycles_remaining = 0;
    }

    pub fn clear_output(&mut self)
        ensures
            final(self).tx_log@.len() == 0,
            final(self).rx_queue@ == old(self).rx_queue@,
            final(self).tx_busy_byte == old(self).tx_busy_byte,
            final(self).tx_cycles_remaining == old(self).tx_cycles_remaining,
    {
        self.tx_log.clear();
    }

    /// Queues bytes for the receiver, after those already waiting.
    pub fn inject_rx(&mut self, payload: &[u8])
        ensures
            final(self).rx_queue@ == old(self).rx_queue@ + payload@,
            final(self).tx_log@ == old(self).tx_log@,
            final(self).tx_busy_byte == old(self).tx_busy_byte,
            final(self).tx_cycles_remaining == old(self).tx_cycles_remaining,
    {
        let ghost start = self.rx_queue@;
        let mut i: usize = 0;
        while i < payload.len()
            invariant
                i <= payload@.len(),
                self.rx_queue@ == start + payload@.subrange(0, i as int),
                self.tx_log@ == old(self).tx_log@,
                self.tx_busy_byte == old(self).tx_busy_byte,
                self.tx_cycles_remaining == old(self).tx_cycles_remaining,
            decreases payload.len() - i,
        {
            self.rx_queue.push_back(payload[i]);
            i = i + 1;
            assert(self.rx_queue@ =~= start + payload@.subrange(0, i as int));
        }
        assert(payload@.subrange(0, payload@.len() as int) =~= payload@);
    }

    /// Cycles per frame; the exact integer value of
    /// `round(clock_hz * 10 / (clock_hz / (divisor * (ubrr + 1))))`.
    pub fn frame_cycles(clock_hz: u32, ubrr: u16, double_speed: bool) -> (r: u32)
        ensures
            r == spec_frame_cycles(clock_hz, ubrr, double_speed),
    {
        if clock_hz == 0 {
            return 1;
        }
        let divisor: u32 = if double_speed {
            8
        } else {
            16
        };
        let frames: u32 = (ubrr as u32) + 1;
        assert(10 * divisor * frames <= 160 * 65536) by (nonlinear_arith)
            requires
                divisor <= 16,
                frames <= 65536,
        ;
        10 * divisor * frames
    }

    /// A write of `UDR0`: with the transmitter enabled the byte starts
    /// shifting out and `UDRE0`/`TXC0` drop.
    pub fn write_udr(
        &mut self,
        value: u8,
        clock_hz: u32,
        ubrr: u16,
        double_speed: bool,
        tx_enabled: bool,
        ucsra: &mut u8,
        udre_mask: u8,
        txc_mask: u8,
    )
        ensures
            spec_serial_write_udr(
                *old(self),
                value,
                clock_hz,
                ubrr,
                double_speed,
                tx_enabled,
                *old(ucsra),
                udre_mask,
                txc_mask,
                *final(self),
                *final(ucsra),
            ),
    {
        if !tx_enabled {
            return ;
        }
        self.tx_busy_byte = Some(value);
        self.tx_cycles_remaining = Self::frame_cycles(clock_hz, ubrr, double_speed) as i64;
        *ucsra = *ucsra & !(udre_mask | txc_mask);
    }

    /// Lets `cycles` pass: a byte whose frame is complete is logged and the
    /// transmitter flags rise; then the receive latch is serviced.
    pub fn advance(
        &mut self,
        cycles: u32,
        ucsra: &mut u8,
        ucsrb: u8,
        udr: &mut u8,
        udre_mask: u8,
        txc_mask: u8,
        rxc_mask: u8,
        rxen_mask: u8,
    )
        requires
            old(self).tx_busy_byte is Some ==> old(self).tx_cycles_remaining - cycles >= i64::MIN,
        ensures
            spec_serial_advance(
                *old(self),
                cycles,
                *old(ucsra),
                ucsrb,
                *old(udr),
                udre_mask,
                txc_mask,
                rxc_mask,
                rxen_mask,
                *final(self),
                *final(ucsra),
                *final(udr),
            ),
    {
        if let Some(byte) = self.tx_busy_byte {
            self.tx_cycles_remaining = self.tx_cycles_remaining - cycles as i64;
            if self.tx_cycles_remaining <= 0 {
                self.tx_log.push(byte);
                self.tx_busy_byte = None;
                self.tx_cycles_remaining = 0;
                *ucsra = *ucsra | (udre_mask | txc_mask);
            }
        }
        self.service_rx_latch(ucsra, ucsrb, udr, rxc_mask, rxen_mask);
    }

    /// Moves the next received byte into `UDR0` and raises `RXC0`, unless a
    /// byte is already latched or the receiver is off.
    pub fn service_rx_latch(
        &mut self,
        ucsra: &mut u8,
        ucsrb: u8,
        udr: &mut u8,
        rxc_mask: u8,
        rxen_mask: u8,
    )
        ensures
            spec_rx_latch(
                old(self).rx_queue@,
                *old(ucsra),
                ucsrb,
                *old(udr),
                rxc_mask,
                rxen_mask,
                final(self).rx_queue@,
                *final(ucsra),
                *final(udr),
            ),
            final(self).tx_log@ == old(self).tx_log@,
            final(self).tx_busy_byte == old(self).tx_busy_byte,
            final(self).tx_cycles_remaining == old(self).tx_cycles_remaining,
    {
        if (*ucsra & rxc_mask) != 0 || (ucsrb & rxen_mask) == 0 {
            return ;
        }
        if let Some(byte) = self.rx_queue.pop_front() {
            *udr = byte;
            *ucsra = *ucsra | rxc_mask;
        }
    }
}

/// The receive latch step: when nothing is latched (`RXC0` clear), the
/// receiver is on and a byte waits, that byte moves to `UDR0` and `RXC0`
/// rises; otherwise nothing changes.
pub open spec fn spec_rx_latch(
    queue: Seq<u8>,
    ucsra: u8,
    ucsrb: u8,
    udr: u8,
    rxc_mask: u8,
    rxen_mask: u8,
    queue_after: Seq<u8>,
    ucsra_after: u8,
    udr_after: u8,
) -> bool {
    if (ucsra & rxc_mask) == 0 && (ucsrb & rxen_mask) != 0 && queue.len() > 0 {
        &&& queue_after == queue.subrange(1, queue.len() as int)
        &&& udr_after == queue[0]
        &&& ucsra_after == ucsra | rxc_mask
    } else {
        &&& queue_after == queue
        &&& udr_after == udr
        &&& ucsra_after == ucsra
    }
}

// ---------------------------------------------------------------------------
// ADC
// ---------------------------------------------------------------------------

/// The analog-to-digital converter: cycles left in the running conversion
/// and whether its interrupt waits to be taken.
#[derive(Debug, Clone)]
pub struct AdcState {
    pub cycles_remaining: i64,
    pub interrupt_pending: bool,
}

impl Default for AdcState {
    fn default() -> (a: Self)
        ensures
            a.cycles_remaining == 0,
            !a.interrupt_pending,
    {
        AdcState { cycles_remaining: 0, interrupt_pending: false }
    }
}

impl AdcState {
    pub fn reset(&mut self)
        ensures
            final(self).cycles_remaining == 0,
            !final(self).interrupt_pending,
    {
        self.cycles_remaining = 0;
        self.interrupt_pending = false;
    }

    /// Starts a conversion that takes `cycles` clock cycles.
    pub fn start(&mut self, cycles: u32)
        ensures
            final(self).cycles_remaining == cycles,
            !final(self).interrupt_pending,
    {
        self.cycles_remaining = cycles as i64;
        self.interrupt_pending = false;
    }

    pub fn clear(&mut self)
        ensures
            final(self).cycles_remaining == 0,
            !final(self).interrupt_pending,
    {
        self.cycles_remaining = 0;
        self.interrupt_pending = false;
    }

    /// Lets `cycles` pass; true exactly when a running conversion finishes.
    pub fn advance(&mut self, cycles: u32) -> (done: bool)
        ensures
            final(self).interrupt_pending == old(self).interrupt_pending,
            old(self).cycles_remaining <= 0 ==> !done && final(self).cycles_remaining
                == old(self).cycles_remaining,
            old(self).cycles_remaining > 0 ==> final(self).cycles_remaining == old(
                self,
            ).cycles_remaining - cycles && done == (final(self).cycles_remaining <= 0),
    {
        if self.cycles_remaining <= 0 {
            return false;
        }
        self.cycles_remaining = self.cycles_remaining - cycles as i64;
        self.cycles_remaining <= 0
    }
}


/// The mode a `DDRx`/`PORTx` pair gives the pin of bit `bit`: an output
/// when the `DDRx` bit is set, else an input with pull-up when the `PORTx`
/// bit is set, else a plain input.
pub open spec fn port_bit_mode(ddr: u8, port: u8, bit: u8) -> PinMode {
    if ddr & (1u8 << bit) != 0 {
        PinMode::Output
    } else if port & (1u8 << bit) != 0 {
        PinMode::InputPullup
    } else {
        PinMode::Input
    }
}

/// The level an output on bit `bit` of `PORTx` drives: 1 when set, else 0.
pub open spec fn port_bit_level(port: u8, bit: u8) -> u8 {
    if port & (1u8 << bit) != 0 {
        1
    } else {
        0
    }
}

/// Bit `bit` of `value`, as 0 or 1.
pub open spec fn bit_of(value: u8, bit: u8) -> u8 {
    (value >> bit) & 1u8
}

/// Setting bit `i` sets that bit and leaves the others.
pub proof fn lemma_set_bit(v: u8, i: u8, j: u8)
    requires
        i < 8,
        j < 8,
    ensures
        bit_of(v | (1u8 << i), j) == (if j == i { 1u8 } else { bit_of(v, j) }),
        bit_of(0u8, j) == 0u8,
{
    assert(((v | (1u8 << i)) >> j) & 1u8 == (if j == i { 1u8 } else { (v >> j) & 1u8 })) by (bit_vector)
        requires
            i < 8,
            j < 8,
    ;
    assert((0u8 >> j) & 1u8 == 0u8) by (bit_vector);
}

} // verus!
