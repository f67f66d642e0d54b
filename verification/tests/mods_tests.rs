use rosu_ffi::mode::GameMode;
use rosu_ffi::mods::{parse_mods, GameMods};

#[test]
fn _mods_tests_test_parse_mods_num() {
    let result = parse_mods("64", GameMode::Osu);
    assert!(result.is_ok());
    match result.unwrap() {
        GameMods::Legacy(mods) => assert_eq!(mods.bits(), 64),
        _ => panic!("expected Legacy mods"),
    }
}

#[test]
fn _mods_tests_test_parse_mods_acr() {
    let result = parse_mods("HD", GameMode::Osu);
    assert!(result.is_ok());
}

#[test]
fn _mods_tests_test_parse_mods_arr() {
    let result = parse_mods(r#"["HD", "DT"]"#, GameMode::Osu);
    assert!(result.is_ok());
    match result.unwrap() {
        GameMods::Lazer(_) => (),
        _ => panic!("expected Lazer mods"),
    }
}

#[test]
fn _mods_tests_test_parse_mods_empty() {
    let result = parse_mods("", GameMode::Osu);
    assert!(result.is_ok());
}

#[test]
fn _mods_tests_test_parse_mods_invalid_json() {
    let result = parse_mods("[invalid json", GameMode::Osu);
    assert!(result.is_err());
}

#[test]
fn _mods_tests_test_parse_mods_with_settings() {
    let mod_str = r#"
        [
            {
                "acronym": "DT",
                "settings": {
                    "speed_change": 2.0
                }
            }
        ]
        "#;

    let mods = parse_mods(mod_str, GameMode::Osu).unwrap();

    match mods {
        GameMods::Lazer(m) => assert!(m.len() > 0),
        _ => panic!("expected lazer mods"),
    }
}
