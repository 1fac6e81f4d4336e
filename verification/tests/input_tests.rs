use rboy_lego::input::config::{InputListenerConfig, KeyConfig, PowerSwitch, RepeatConfig};
use rboy_lego::input::gpio::{Level, SimGpio};
use rboy_lego::input::state::{KeyRuntime, OutEvent};
use rboy_lego::input::{InputListener, KeyEvent};
use rboy_lego::KeypadKey;

fn active_low_key(debounce_ms: u64, repeat: Option<RepeatConfig>) -> KeyRuntime {
    KeyRuntime::new(true, debounce_ms, repeat)
}

#[test]
fn test_press_confirmed_after_debounce() {
    let mut k = active_low_key(20, None);
    assert_eq!(k.handle_gpio_value(Level::High, 0), OutEvent::Idle);
    assert_eq!(k.handle_gpio_value(Level::High, 5), OutEvent::Idle);
    // The line goes active (low) at t=10 and stays.
    assert_eq!(k.handle_gpio_value(Level::Low, 10), OutEvent::Idle);
    assert_eq!(k.handle_gpio_value(Level::Low, 15), OutEvent::Idle);
    assert_eq!(k.handle_gpio_value(Level::Low, 25), OutEvent::Idle);
    // At t=30 the reading has been stable for 20 ms: confirmed.
    assert_eq!(k.handle_gpio_value(Level::Low, 30), OutEvent::Press);
    // Holding emits nothing further without repeat.
    assert_eq!(k.handle_gpio_value(Level::Low, 35), OutEvent::Idle);
    // Release follows the same debounce rule.
    assert_eq!(k.handle_gpio_value(Level::High, 40), OutEvent::Idle);
    assert_eq!(k.handle_gpio_value(Level::High, 55), OutEvent::Idle);
    assert_eq!(k.handle_gpio_value(Level::High, 60), OutEvent::Release);
}

#[test]
fn test_short_pulse_is_debounced_away() {
    // A key configured with a 20 ms debounce, polled every 5 ms, whose raw
    // line is active for only 10 ms (two poll ticks) must not produce a
    // press.
    let mut k = active_low_key(20, None);
    let mut events = Vec::new();
    let reads = [
        (Level::High, 0),
        (Level::High, 5),
        (Level::Low, 10),
        (Level::Low, 15),
        (Level::High, 20),
        (Level::High, 25),
        (Level::High, 30),
        (Level::High, 35),
        (Level::High, 40),
    ];
    for (v, t) in reads {
        events.push(k.handle_gpio_value(v, t));
    }
    assert!(events.iter().all(|e| *e == OutEvent::Idle));
}

#[test]
fn test_repeat_fires_after_delay_then_at_rate() {
    let rc = RepeatConfig { delay_ms: 300, rate_ms: 80 };
    let mut k = active_low_key(0, Some(rc));
    // Zero debounce: the press confirms on the first active reading.
    assert_eq!(k.handle_gpio_value(Level::Low, 0), OutEvent::Press);
    // Held: nothing until the delay has passed.
    assert_eq!(k.handle_gpio_value(Level::Low, 100), OutEvent::Idle);
    assert_eq!(k.handle_gpio_value(Level::Low, 295), OutEvent::Idle);
    assert_eq!(k.handle_gpio_value(Level::Low, 300), OutEvent::Repeat);
    // Rearmed at the rate, not the delay.
    assert_eq!(k.handle_gpio_value(Level::Low, 305), OutEvent::Idle);
    assert_eq!(k.handle_gpio_value(Level::Low, 375), OutEvent::Idle);
    assert_eq!(k.handle_gpio_value(Level::Low, 380), OutEvent::Repeat);
    assert_eq!(k.handle_gpio_value(Level::Low, 460), OutEvent::Repeat);
    // Release stops the repeats.
    assert_eq!(k.handle_gpio_value(Level::High, 465), OutEvent::Release);
    assert_eq!(k.handle_gpio_value(Level::High, 600), OutEvent::Idle);
}

#[test]
fn test_no_repeat_when_disabled() {
    let mut k = active_low_key(0, None);
    assert_eq!(k.handle_gpio_value(Level::Low, 0), OutEvent::Press);
    for t in 1..2000u64 {
        assert_eq!(k.handle_gpio_value(Level::Low, t), OutEvent::Idle);
    }
}

#[test]
fn test_polarity_active_high() {
    let mut k = KeyRuntime::new(false, 0, None);
    // active_low = false: a high reading is the pressed state.
    assert_eq!(k.handle_gpio_value(Level::High, 0), OutEvent::Press);
    assert_eq!(k.handle_gpio_value(Level::Low, 1), OutEvent::Release);
}

#[test]
fn test_handle_key_poll_maps_events_and_skips_errors() {
    let script = vec![
        None,             // read error: skipped, no event
        Some(Level::Low), // press (zero debounce)
        Some(Level::Low), // held, no repeat configured
        Some(Level::High),// release
    ];
    let cfg = KeyConfig {
        gpio: SimGpio::new(script),
        keycode: KeypadKey::B,
        active_low: true,
        debounce_ms: 0,
        repeat: None,
    };
    let mut key = rboy_lego::input::state::KeyState::from_config(cfg);
    type L = InputListener<SimGpio>;
    assert_eq!(L::handle_key_poll(&mut key, 0), None);
    assert_eq!(L::handle_key_poll(&mut key, 5), Some((KeyEvent::Down, KeypadKey::B)));
    assert_eq!(L::handle_key_poll(&mut key, 10), None);
    assert_eq!(L::handle_key_poll(&mut key, 15), Some((KeyEvent::Up, KeypadKey::B)));
}

#[test]
fn test_poll_once_emits_in_key_order() {
    let key_a = KeyConfig {
        gpio: SimGpio::new(vec![Some(Level::Low)]),
        keycode: KeypadKey::A,
        active_low: true,
        debounce_ms: 0,
        repeat: None,
    };
    let key_b = KeyConfig {
        gpio: SimGpio::new(vec![Some(Level::Low)]),
        keycode: KeypadKey::Start,
        active_low: true,
        debounce_ms: 0,
        repeat: None,
    };
    let config = InputListenerConfig {
        keys: vec![key_a, key_b],
        power_switches: vec![],
        poll_interval_ms: 5,
    };
    let mut listener = InputListener::new(config);
    let events = listener.poll_once(0);
    assert_eq!(
        events,
        vec![
            (KeyEvent::Down, KeypadKey::A),
            (KeyEvent::Down, KeypadKey::Start),
        ]
    );
    assert!(!listener.should_exit());
}

#[test]
fn test_power_switch_sets_exit_and_stops_polling() {
    // A power switch that reads active once: the exit flag latches and no
    // further polling happens after that tick.
    let key = KeyConfig {
        gpio: SimGpio::new(vec![Some(Level::Low), Some(Level::Low)]),
        keycode: KeypadKey::A,
        active_low: true,
        debounce_ms: 0,
        repeat: None,
    };
    let switch = PowerSwitch {
        gpio: SimGpio::new(vec![Some(Level::High), Some(Level::Low)]),
        active_low: false,
    };
    let config = InputListenerConfig {
        keys: vec![key],
        power_switches: vec![switch],
        poll_interval_ms: 5,
    };
    let mut listener = InputListener::new(config);
    // First tick: switch reads high = active (active_low = false).
    let events = listener.poll_once(0);
    assert_eq!(events, vec![(KeyEvent::Down, KeypadKey::A)]);
    assert!(listener.should_exit());
    let key_reads_before = listener.keys[0].gpio.pos;
    let switch_reads_before = listener.power_switches[0].gpio.pos;
    // Further ticks do nothing at all: no events, no GPIO reads.
    let events = listener.poll_once(5);
    assert!(events.is_empty());
    assert!(listener.should_exit());
    assert_eq!(listener.keys[0].gpio.pos, key_reads_before);
    assert_eq!(listener.power_switches[0].gpio.pos, switch_reads_before);
}

#[test]
fn test_power_switch_read_error_triggers_nothing() {
    let switch = PowerSwitch::<SimGpio> {
        gpio: SimGpio::new(vec![None]),
        active_low: false,
    };
    let config = InputListenerConfig {
        keys: vec![],
        power_switches: vec![switch],
        poll_interval_ms: 5,
    };
    let mut listener = InputListener::new(config);
    let events = listener.poll_once(0);
    assert!(events.is_empty());
    assert!(!listener.should_exit());
}
