use rboy_lego::app_config::{
    AppConfig, ConfigError, KeyConfig, Keycode, PowerSwitchConfig,
};
use rboy_lego::args::{Args, LogLevel};
use rboy_lego::KeypadKey;

#[test]
fn test_log_level_from_str() {
    assert_eq!(LogLevel::from_str("error").unwrap(), LogLevel::Error);
    assert_eq!(LogLevel::from_str("warn").unwrap(), LogLevel::Warn);
    assert_eq!(LogLevel::from_str("info").unwrap(), LogLevel::Info);
    assert_eq!(LogLevel::from_str("debug").unwrap(), LogLevel::Debug);
    assert_eq!(LogLevel::from_str("trace").unwrap(), LogLevel::Trace);
    assert!(LogLevel::from_str("invalid").is_err());
}

#[test]
fn test_log_level_to_level_filter() {
    assert_eq!(LogLevel::Error.to_level_filter(), log::LevelFilter::Error);
    assert_eq!(LogLevel::Warn.to_level_filter(), log::LevelFilter::Warn);
    assert_eq!(LogLevel::Info.to_level_filter(), log::LevelFilter::Info);
    assert_eq!(LogLevel::Debug.to_level_filter(), log::LevelFilter::Debug);
    assert_eq!(LogLevel::Trace.to_level_filter(), log::LevelFilter::Trace);
}

#[test]
fn test_log_level_from_str_ignores_case() {
    assert_eq!(LogLevel::from_str("ERROR").unwrap(), LogLevel::Error);
    assert_eq!(LogLevel::from_str("Trace").unwrap(), LogLevel::Trace);
}

#[test]
fn test_keycode_from_str() {
    assert_eq!(Keycode::from_str("A").unwrap().keycode(), KeypadKey::A);
    assert_eq!(Keycode::from_str("b").unwrap().keycode(), KeypadKey::B);
    assert_eq!(Keycode::from_str("UP").unwrap().keycode(), KeypadKey::Up);
    assert_eq!(Keycode::from_str("down").unwrap().keycode(), KeypadKey::Down);
    assert_eq!(Keycode::from_str("Left").unwrap().keycode(), KeypadKey::Left);
    assert_eq!(Keycode::from_str("RIGHT").unwrap().keycode(), KeypadKey::Right);
    assert_eq!(Keycode::from_str("START").unwrap().keycode(), KeypadKey::Start);
    assert_eq!(Keycode::from_str("SELECT").unwrap().keycode(), KeypadKey::Select);
    assert!(Keycode::from_str("TURBO").is_err());
    assert!(Keycode::from_str("").is_err());
}

fn sample_config() -> AppConfig {
    AppConfig {
        default_debounce_ms: 20,
        default_active_low: true,
        poll_interval_ms: 5,
        keys: vec![
            KeyConfig {
                gpio: 17,
                keycode: Keycode::from_str("A").unwrap(),
                debounce_ms: Some(20),
                active_low: Some(true),
                repeat: false,
                repeat_delay_ms: None,
                repeat_rate_ms: None,
            },
            KeyConfig {
                gpio: 22,
                keycode: Keycode::from_str("UP").unwrap(),
                debounce_ms: None,
                active_low: None,
                repeat: true,
                repeat_delay_ms: Some(300),
                repeat_rate_ms: Some(80),
            },
        ],
        power_switches: vec![PowerSwitchConfig { gpio: 27, active_low: Some(false) }],
    }
}

#[test]
fn test_config_accessors() {
    let config = sample_config();
    assert_eq!(config.default_debounce(), 20);
    assert_eq!(config.poll_interval(), 5);
    assert_eq!(config.keys[0].debounce(), Some(20));
    assert_eq!(config.keys[0].repeat_delay(), None);
    assert_eq!(config.keys[1].repeat_delay(), Some(300));
    assert_eq!(config.keys[1].repeat_rate(), Some(80));
}

#[test]
fn test_resolve_applies_defaults() {
    let config = sample_config();
    let (keys, switches) = config.resolve().unwrap();
    assert_eq!(keys.len(), 2);
    assert_eq!(keys[0].gpio, 17);
    assert_eq!(keys[0].keycode, KeypadKey::A);
    assert!(keys[0].active_low);
    assert_eq!(keys[0].debounce_ms, 20);
    assert!(keys[0].repeat.is_none());
    // The second key falls back to the configuration defaults.
    assert_eq!(keys[1].gpio, 22);
    assert_eq!(keys[1].keycode, KeypadKey::Up);
    assert!(keys[1].active_low);
    assert_eq!(keys[1].debounce_ms, 20);
    let rc = keys[1].repeat.unwrap();
    assert_eq!(rc.delay_ms, 300);
    assert_eq!(rc.rate_ms, 80);
    assert_eq!(switches.len(), 1);
    assert_eq!(switches[0].gpio, 27);
    assert!(!switches[0].active_low);
}

#[test]
fn test_resolve_rejects_repeat_without_timings() {
    let mut config = sample_config();
    config.keys[1].repeat_delay_ms = None;
    assert_eq!(config.resolve().err(), Some(ConfigError::MissingRepeatDelay));
    let mut config = sample_config();
    config.keys[1].repeat_rate_ms = None;
    assert_eq!(config.resolve().err(), Some(ConfigError::MissingRepeatRate));
}

#[test]
fn test_args_defaults() {
    let args = Args::default();
    assert_eq!(args.bytes_per_pixel, 2);
    assert_eq!(args.config, "/etc/rboy-lego/config.toml");
    assert_eq!(args.framebuffer_path, "/dev/fb1");
    assert_eq!(args.height, 240);
    assert_eq!(args.log_level, LogLevel::Info);
    assert_eq!(args.scale, 2);
    assert_eq!(args.stride_pixels, 320);
    assert_eq!(args.width, 320);
    assert!(args.rom_path.is_none());
}

#[test]
fn test_keycode_name() {
    assert_eq!(Keycode::from_str("a").unwrap().name(), "A");
    assert_eq!(Keycode::from_str("select").unwrap().name(), "Select");
    assert_eq!(Keycode::from_str("UP").unwrap().name(), "Up");
}
