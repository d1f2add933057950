use npcore::components;
use npcore::settings::{
    default_10k, default_false, default_log_level, default_seed, default_true, Config, Error,
    Paths, Random, Settings, SettingsError,
};
use npcore::sigma::ErrorType;

fn plain_settings() -> Settings {
    Settings {
        paths: Paths { data: "data.csv".to_string(), log: None, prior: None },
        config: Config {
            cycles: 1024,
            engine: "NPAG".to_string(),
            seed: default_seed(),
            init_points: default_10k(),
            tui: default_false(),
            output: default_true(),
            cache: default_true(),
            idelta: 0.12f64.to_bits(),
            log_level: default_log_level(),
            exclude: None,
            tad: 0.0f64.to_bits(),
        },
        random: Random {
            parameters: vec![
                ("ke".to_string(), (0.001f64.to_bits(), 3.0f64.to_bits())),
                ("v".to_string(), (25.0f64.to_bits(), 250.0f64.to_bits())),
            ],
        },
        fixed: None,
        constant: None,
        error: Error {
            value: 0.1f64.to_bits(),
            class: "proportional".to_string(),
            poly: (
                0.02f64.to_bits(),
                0.05f64.to_bits(),
                0.0f64.to_bits(),
                0.0f64.to_bits(),
            ),
        },
    }
}

#[test]
fn read_mandatory_settings() {
    let settings = plain_settings();
    assert_eq!(settings.paths.data, "data.csv");
    assert_eq!(settings.config.cycles, 1024);
    assert_eq!(settings.config.engine, "NPAG");
}

#[test]
fn defaults_hold() {
    assert!(default_true());
    assert!(!default_false());
    assert_eq!(default_log_level(), "info");
    assert_eq!(default_seed(), 347);
    assert_eq!(default_10k(), 10_000);
}

#[test]
fn random_lookup_and_projection() {
    let settings = plain_settings();
    assert_eq!(
        settings.random.get("ke"),
        Some((0.001f64.to_bits(), 3.0f64.to_bits()))
    );
    assert_eq!(settings.random.get("absent"), None);
    let ranges = settings.random.ranges();
    assert_eq!(ranges.len(), 2);
    assert_eq!(ranges[1], (25.0f64.to_bits(), 250.0f64.to_bits()));
    let names = settings.random.names();
    assert_eq!(names, vec!["ke".to_string(), "v".to_string()]);
}

#[test]
fn random_validate_accepts_increasing_bounds() {
    let settings = plain_settings();
    assert!(settings.random.validate().is_ok());
    assert!(settings.validate().is_ok());
}

#[test]
fn random_validate_rejects_flat_range() {
    let random = Random {
        parameters: vec![("ke".to_string(), (1.0f64.to_bits(), 1.0f64.to_bits()))],
    };
    match random.validate() {
        Err(SettingsError::BoundsNotIncreasing { key }) => assert_eq!(key, "ke"),
        other => panic!("expected a bounds error, got {:?}", other.is_ok()),
    }
}

#[test]
fn error_validate_rejects_negative_value() {
    let error = Error {
        value: (-0.5f64).to_bits(),
        class: "additive".to_string(),
        poly: (0.0f64.to_bits(), 0.0f64.to_bits(), 0.0f64.to_bits(), 0.0f64.to_bits()),
    };
    assert!(matches!(error.validate(), Err(SettingsError::NegativeErrorValue)));
    let ok = Error { value: 0.0f64.to_bits(), ..error };
    assert!(ok.validate().is_ok());
}

#[test]
fn error_class_parsing_ignores_ascii_case() {
    assert_eq!(ErrorType::from_class("additive"), Some(ErrorType::Add));
    assert_eq!(ErrorType::from_class("ADDITIVE"), Some(ErrorType::Add));
    assert_eq!(ErrorType::from_class("Proportional"), Some(ErrorType::Prop));
    assert_eq!(ErrorType::from_class("poisson"), None);
    assert_eq!(ErrorType::from_class(""), None);
}

#[test]
fn format_time_picks_units() {
    assert_eq!(components::format_time(0), "0s");
    assert_eq!(components::format_time(59), "59s");
    assert_eq!(components::format_time(60), "1m");
    assert_eq!(components::format_time(3599), "59m");
    assert_eq!(components::format_time(3600), "1h");
    assert_eq!(components::format_time(7300), "2h");
}

#[test]
fn check_size_guards_small_terminals() {
    assert!(components::check_size(&components::TermSize { width: 52, height: 12 }));
    assert!(!components::check_size(&components::TermSize { width: 51, height: 12 }));
    assert!(!components::check_size(&components::TermSize { width: 52, height: 11 }));
}
