//! Countdown timer device.
//!
//! I/O port 0x30 – COUNTER: current value (read) / reload value (write)
//! I/O port 0x31 – PERIOD:  reload period in ticks
//! I/O port 0x32 – CONTROL: bit 0 = enable, bit 1 = irq enable
//!
//! `tick()` should be called once per CPU cycle.  When the counter reaches
//! zero it reloads from PERIOD and sets the fired flag.
use vstd::prelude::*;

verus! {

pub const PORT_COUNTER: u16 = 0x30;

pub const PORT_PERIOD: u16 = 0x31;

pub const PORT_CONTROL: u16 = 0x32;

pub struct Timer {
    counter: u16,
    period: u16,
    enabled: bool,
    irq_en: bool,
    pub fired: bool,
}

pub struct TimerView {
    pub counter: u16,
    pub period: u16,
    pub enabled: bool,
    pub irq_en: bool,
    pub fired: bool,
}

impl View for Timer {
    type V = TimerView;

    closed spec fn view(&self) -> TimerView {
        TimerView {
            counter: self.counter,
            period: self.period,
            enabled: self.enabled,
            irq_en: self.irq_en,
            fired: self.fired,
        }
    }
}

/// A stopped timer with every register zero.
pub open spec fn initial_timer() -> TimerView {
    TimerView { counter: 0, period: 0, enabled: false, irq_en: false, fired: false }
}

impl TimerView {
    /// The timer after one tick.
    pub open spec fn tick(self) -> TimerView {
        if !self.enabled || self.period == 0 {
            self
        } else if self.counter == 0 {
            TimerView { counter: self.period, fired: true, ..self }
        } else {
            TimerView { counter: (self.counter - 1) as u16, ..self }
        }
    }

    /// The timer after `n` ticks.
    pub open spec fn ticks(self, n: nat) -> TimerView
        decreases n,
    {
        if n == 0 {
            self
        } else {
            self.ticks((n - 1) as nat).tick()
        }
    }

    /// What a read of `port` returns.
    pub open spec fn io_read(self, port: u16) -> Option<u16> {
        if port == PORT_COUNTER {
            Some(self.counter)
        } else if port == PORT_PERIOD {
            Some(self.period)
        } else if port == PORT_CONTROL {
            Some(((if self.enabled { 1int } else { 0int }) + (if self.irq_en { 2int } else { 0int })) as u16)
        } else {
            None
        }
    }

    /// Whether a write to `port` is accepted, and the timer afterwards.
    pub open spec fn io_write(self, port: u16, value: u16) -> (bool, TimerView) {
        if port == PORT_COUNTER {
            (true, TimerView { counter: value, ..self })
        } else if port == PORT_PERIOD {
            (true, TimerView { period: value, ..self })
        } else if port == PORT_CONTROL {
            (true, TimerView { enabled: value % 2 == 1, irq_en: (value / 2) % 2 == 1, ..self })
        } else {
            (false, self)
        }
    }
}

impl Timer {
    pub fn new() -> (t: Self)
        ensures
            t@ == initial_timer(),
    {
        Timer { counter: 0, period: 0, enabled: false, irq_en: false, fired: false }
    }

    pub fn tick(&mut self)
        ensures
            final(self)@ == old(self)@.tick(),
    {
        if !self.enabled || self.period == 0 {
            return;
        }
        if self.counter == 0 {
            self.counter = self.period;
            self.fired = true;
        } else {
            self.counter -= 1;
        }
    }

    pub fn io_read(&self, port: u16) -> (r: Option<u16>)
        ensures
            r == self@.io_read(port),
    {
        if port == PORT_COUNTER {
            Some(self.counter)
        } else if port == PORT_PERIOD {
            Some(self.period)
        } else if port == PORT_CONTROL {
            let en: u16 = if self.enabled { 1 } else { 0 };
            let irq: u16 = if self.irq_en { 1 } else { 0 };
            assert((en <= 1 && irq <= 1) ==> (en | (irq << 1u16)) == en + 2 * irq) by (bit_vector);
            Some(en | (irq << 1u16))
        } else {
            None
        }
    }

    pub fn io_write(&mut self, port: u16, value: u16) -> (accepted: bool)
        ensures
            (accepted, final(self)@) == old(self)@.io_write(port, value),
    {
        if port == PORT_COUNTER {
            self.counter = value;
            true
        } else if port == PORT_PERIOD {
            self.period = value;
            true
        } else if port == PORT_CONTROL {
            assert((value & 1 != 0) == (value % 2 == 1)) by (bit_vector);
            assert((value & 2 != 0) == ((value / 2) % 2 == 1)) by (bit_vector);
            self.enabled = value & 1 != 0;
            self.irq_en = value & 2 != 0;
            true
        } else {
            false
        }
    }
}

impl Default for Timer {
    fn default() -> (t: Self)
        ensures
            t@ == initial_timer(),
    {
        Self::new()
    }
}

/// An enabled timer with a non-zero period counts its counter down by one
/// each tick.
pub proof fn lemma_timer_counts_down(t: TimerView, n: nat)
    requires
        t.enabled,
        t.period > 0,
        n <= t.counter,
    ensures
        t.ticks(n) == (TimerView { counter: (t.counter - n) as u16, ..t }),
    decreases n,
{
    if n > 0 {
        lemma_timer_counts_down(t, (n - 1) as nat);
    }
}

/// The tick after an enabled timer's counter reaches zero reloads it from the
/// period and sets the fired flag.
pub proof fn lemma_timer_fires(t: TimerView)
    requires
        t.enabled,
        t.period > 0,
    ensures
        t.ticks((t.counter + 1) as nat) == (TimerView { counter: t.period, fired: true, ..t }),
{
    lemma_timer_counts_down(t, t.counter as nat);
}

/// A value written to the counter or period register reads back unchanged;
/// the control register reads back its two low bits.
pub proof fn lemma_timer_write_read(t: TimerView, port: u16, value: u16)
    requires
        port == PORT_COUNTER || port == PORT_PERIOD || port == PORT_CONTROL,
    ensures
        t.io_write(port, value).0,
        port != PORT_CONTROL ==> t.io_write(port, value).1.io_read(port) == Some(value),
        port == PORT_CONTROL ==> t.io_write(port, value).1.io_read(port) == Some((value % 4) as u16),
{
}

} // verus!
