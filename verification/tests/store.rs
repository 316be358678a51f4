use innkeeper::config::LaunchSettings;
use innkeeper::store::{assemble_settings, screen_size_of, settings_rows, signed, unsigned, StoreError};
use innkeeper::validation::ScreenSize;

fn launch(kiosk: bool, command: &str) -> LaunchSettings {
    LaunchSettings {
        software_encoding: !kiosk,
        screen_size: if kiosk { Some(ScreenSize { width: 1280, height: 720 }) } else { None },
        kiosk,
        startup_command: command.into(),
    }
}

fn view(s: &LaunchSettings) -> (bool, Option<ScreenSize>, bool, String) {
    (s.software_encoding, s.screen_size, s.kiosk, s.startup_command.clone())
}

#[test]
fn settings_rows_read_back_as_written() {
    let rows = settings_rows(launch(false, "a"), Some(launch(true, "b")), None);
    assert_eq!(rows.iter().map(|r| r.0.as_str()).collect::<Vec<_>>(), vec!["desired", "applied"]);
    let (d, a, l) = assemble_settings(&rows).unwrap();
    assert_eq!(view(&d), view(&launch(false, "a")));
    assert_eq!(a.as_ref().map(view), Some(view(&launch(true, "b"))));
    assert!(l.is_none());
    let rows = settings_rows(launch(true, "x"), None, Some(launch(false, "y")));
    let (d, a, l) = assemble_settings(&rows).unwrap();
    assert_eq!(view(&d), view(&launch(true, "x")));
    assert!(a.is_none());
    assert_eq!(l.as_ref().map(view), Some(view(&launch(false, "y"))));
}

#[test]
fn settings_rows_are_checked_and_later_rows_win() {
    let rows = vec![
        ("desired".to_string(), launch(false, "old")),
        ("applied".to_string(), launch(true, "applied")),
        ("desired".to_string(), launch(true, "new")),
    ];
    let (d, a, l) = assemble_settings(&rows).unwrap();
    assert_eq!(d.startup_command, "new");
    assert_eq!(a.unwrap().startup_command, "applied");
    assert!(l.is_none());
    let missing = vec![("applied".to_string(), launch(true, "applied"))];
    assert!(matches!(assemble_settings(&missing), Err(StoreError::MissingDesiredSettings)));
    let unknown = vec![
        ("desired".to_string(), launch(false, "a")),
        ("other".to_string(), launch(false, "b")),
    ];
    assert!(matches!(assemble_settings(&unknown), Err(StoreError::UnknownSettingsKind)));
    assert!(matches!(assemble_settings(&[]), Err(StoreError::MissingDesiredSettings)));
}

#[test]
fn stored_numbers() {
    assert_eq!(screen_size_of(Some(1920), Some(1080)), Some(ScreenSize { width: 1920, height: 1080 }));
    assert_eq!(screen_size_of(Some(1920), None), None);
    assert_eq!(screen_size_of(None, Some(1080)), None);
    assert_eq!(signed(5), Ok(5));
    assert_eq!(signed(i64::MAX as u64), Ok(i64::MAX));
    assert_eq!(signed(i64::MAX as u64 + 1), Err(StoreError::NumberTooLarge));
    for n in [0u64, 1, 1_700_000_000_000, i64::MAX as u64] {
        assert_eq!(unsigned(signed(n).unwrap()), Ok(n));
    }
    assert_eq!(StoreError::NumberTooLarge.message(), "out of range integral type conversion attempted");
}
