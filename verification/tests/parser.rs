use rosu_ffi::element::{element_kind, resolve_element, ElementKind};
use rosu_ffi::error::ParseError;
use rosu_ffi::mode::GameMode;
use rosu_ffi::mods::{parse_mods, GameMods};
use rosu_ffi::setting::{find_field, find_refused_setting};
use rosu_ffi::text::{detect, is_whitespace, parse_decimal, trim, Encoding};
use rosu_mods::generated_mods::{DoubleTimeOsu, HiddenOsu};
use rosu_mods::{GameMod, GameModIntermode, GameModsLegacy};

const MODES: [GameMode; 4] = [GameMode::Osu, GameMode::Taiko, GameMode::Catch, GameMode::Mania];

fn legacy_bits(mods: GameMods) -> u32 {
    match mods {
        GameMods::Legacy(legacy) => legacy.bits(),
        _ => panic!("expected the legacy form"),
    }
}

fn lazer(mods: GameMods) -> rosu_mods::GameMods {
    match mods {
        GameMods::Lazer(entries) => entries,
        _ => panic!("expected the lazer form"),
    }
}

#[test]
fn empty_text_gives_no_mods_in_every_mode() {
    for mode in MODES {
        assert_eq!(legacy_bits(parse_mods("", mode).unwrap()), 0);
        assert_eq!(legacy_bits(parse_mods(" \t\r\n", mode).unwrap()), 0);
        assert_eq!(legacy_bits(parse_mods("\u{3000}\u{a0}", mode).unwrap()), 0);
    }
}

#[test]
fn decimal_text_gives_its_bits_verbatim() {
    for bits in [0u32, 1, 8, 64, 72, 576, 1 << 30, 1 << 31, 0x7fff_ffff, u32::MAX] {
        for mode in MODES {
            assert_eq!(legacy_bits(parse_mods(&bits.to_string(), mode).unwrap()), bits);
        }
    }
    assert_eq!(legacy_bits(parse_mods("  64\n", GameMode::Taiko).unwrap()), 64);
    assert_eq!(legacy_bits(parse_mods("+64", GameMode::Osu).unwrap()), 64);
    assert_eq!(legacy_bits(parse_mods("0064", GameMode::Osu).unwrap()), 64);
}

#[test]
fn acronym_with_a_legacy_bit_gives_the_legacy_form() {
    let mods = parse_mods("HD", GameMode::Osu).unwrap();
    assert_ne!(mods.to_legacy_bits(), 0);
    assert_eq!(legacy_bits(mods), 8);
    assert_eq!(legacy_bits(parse_mods("HDDT", GameMode::Osu).unwrap()), 8 + 64);
    assert_eq!(legacy_bits(parse_mods("hddt", GameMode::Osu).unwrap()), 8 + 64);
    assert_eq!(legacy_bits(parse_mods("NC", GameMode::Osu).unwrap()), 512 + 64);
    assert_eq!(legacy_bits(parse_mods("MR", GameMode::Mania).unwrap()), 1 << 30);
    assert_eq!(legacy_bits(parse_mods("NM", GameMode::Osu).unwrap()), 0);
}

#[test]
fn acronym_without_a_legacy_bit_gives_the_intermode_form() {
    match parse_mods("HDWU", GameMode::Osu).unwrap() {
        GameMods::Intermode(set) => {
            assert_eq!(set.len(), 2);
            assert!(set.contains(GameModIntermode::Hidden));
            assert!(set.contains(GameModIntermode::WindUp));
        }
        _ => panic!("expected the intermode form"),
    }
    assert_eq!(parse_mods("HDWU", GameMode::Osu).unwrap().to_legacy_bits(), 8);
}

#[test]
fn garbage_acronyms_are_not_an_error() {
    match parse_mods("QQ", GameMode::Osu).unwrap() {
        GameMods::Intermode(set) => {
            assert_eq!(set.len(), 1);
            assert_eq!(set.to_string(), "QQ");
        }
        _ => panic!("expected the intermode form"),
    }
    assert_eq!(parse_mods("QQ", GameMode::Osu).unwrap().to_legacy_bits(), 0);
    match parse_mods("64x", GameMode::Osu).unwrap() {
        GameMods::Intermode(set) => assert_eq!(set.to_string(), "64"),
        _ => panic!("expected the intermode form"),
    }
    assert!(parse_mods("-1", GameMode::Osu).is_ok());
    assert!(parse_mods("H D", GameMode::Osu).is_ok());
}

#[test]
fn character_left_over_is_dropped() {
    assert_eq!(legacy_bits(parse_mods("HDQ", GameMode::Osu).unwrap()), 8);
    assert_eq!(legacy_bits(parse_mods("HDDTH", GameMode::Osu).unwrap()), 8 + 64);
    assert_eq!(legacy_bits(parse_mods("H", GameMode::Osu).unwrap()), 0);
    match GameMods::from_acronyms("WUH") {
        GameMods::Intermode(set) => {
            assert_eq!(set.len(), 1);
            assert!(set.contains(GameModIntermode::WindUp));
        }
        _ => panic!("expected the intermode form"),
    }
}

#[test]
fn acronyms_are_cut_every_two_characters() {
    match GameMods::from_acronyms("xhdt") {
        GameMods::Intermode(set) => assert_eq!(set.to_string(), "DTXH"),
        _ => panic!("expected the intermode form"),
    }
    assert_eq!(legacy_bits(GameMods::from_acronyms("NMHD")), 8);
    assert_eq!(legacy_bits(GameMods::from_acronyms("HDHDhd")), 8);
    assert_eq!(legacy_bits(GameMods::from_acronyms("")), 0);
}

#[test]
fn number_that_does_not_fit_is_read_as_acronyms() {
    match parse_mods("4294967296", GameMode::Osu).unwrap() {
        // 42, 94, 96, 72 and 96 once more
        GameMods::Intermode(set) => assert_eq!(set.len(), 4),
        _ => panic!("expected the intermode form"),
    }
}

#[test]
fn acronym_outside_ascii_names_nothing() {
    assert_eq!(legacy_bits(parse_mods("HD\u{e4}\u{e4}", GameMode::Osu).unwrap()), 8);
    assert_eq!(legacy_bits(parse_mods("\u{e4}HDT", GameMode::Osu).unwrap()), 64);
    assert_eq!(legacy_bits(GameMods::from_acronyms("\u{e4}\u{e4}a")), 0);
}

#[test]
fn array_of_acronyms_gives_two_plain_entries() {
    let entries = lazer(parse_mods(r#"["HD","DT"]"#, GameMode::Osu).unwrap());
    assert_eq!(entries.len(), 2);
    assert!(entries.contains(&GameMod::HiddenOsu(HiddenOsu::default())));
    assert!(entries.contains(&GameMod::DoubleTimeOsu(DoubleTimeOsu::default())));
    let held: Vec<GameMod> = entries.iter().cloned().collect();
    assert_eq!(
        held,
        vec![
            GameMod::DoubleTimeOsu(DoubleTimeOsu::default()),
            GameMod::HiddenOsu(HiddenOsu::default()),
        ]
    );
    assert_eq!(GameMods::Lazer(entries).to_legacy_bits(), 8 + 64);
}

#[test]
fn broken_json_is_a_syntax_error() {
    match parse_mods("[invalid json", GameMode::Osu) {
        Err(ParseError::MalformedJson { message }) => {
            assert!(message.starts_with("invalid JSON array: "));
            assert!(message.len() > "invalid JSON array: ".len());
        }
        _ => panic!("expected a syntax error"),
    }
    match parse_mods("{\"acronym\":", GameMode::Osu) {
        Err(ParseError::MalformedJson { message }) => {
            assert!(message.starts_with("invalid JSON: "));
        }
        _ => panic!("expected a syntax error"),
    }
}

#[test]
fn settings_are_kept() {
    let text = r#"[{"acronym":"DT","settings":{"speed_change":2.0}}]"#;
    let entries = lazer(parse_mods(text, GameMode::Osu).unwrap());
    assert_eq!(entries.len(), 1);
    match entries.iter().next() {
        Some(GameMod::DoubleTimeOsu(dt)) => {
            assert_eq!(dt.speed_change, Some(2.0));
            assert_eq!(dt.adjust_pitch, None);
        }
        _ => panic!("expected double time"),
    }
}

#[test]
fn single_object_gives_one_entry() {
    let entries = lazer(parse_mods(r#"{"acronym":"HD"}"#, GameMode::Osu).unwrap());
    assert_eq!(entries.len(), 1);
    assert!(entries.contains(&GameMod::HiddenOsu(HiddenOsu::default())));
}

#[test]
fn lazer_form_reads_back_from_its_own_json() {
    let text = r#"[{"acronym":"DT","settings":{"speed_change":1.25}},"HD",16]"#;
    let first = lazer(parse_mods(text, GameMode::Osu).unwrap());
    assert_eq!(first.len(), 3);
    let written = serde_json::to_string(&first).unwrap();
    let second = lazer(parse_mods(&written, GameMode::Osu).unwrap());
    assert!(first == second);
    let again = serde_json::to_string(&second).unwrap();
    assert_eq!(written, again);
}

#[test]
fn later_entry_replaces_earlier_one_of_its_acronym() {
    let text = r#"[{"acronym":"DT","settings":{"speed_change":2.0}},"HD",{"acronym":"DT","settings":{"speed_change":1.5}}]"#;
    let entries = lazer(parse_mods(text, GameMode::Osu).unwrap());
    assert_eq!(entries.len(), 2);
    match entries.iter().next() {
        Some(GameMod::DoubleTimeOsu(dt)) => assert_eq!(dt.speed_change, Some(1.5)),
        _ => panic!("expected double time"),
    }
}

#[test]
fn number_element_names_one_mod_by_its_bit() {
    let entries = lazer(parse_mods("[8, 64]", GameMode::Osu).unwrap());
    assert_eq!(entries.len(), 2);
    assert!(entries.contains(&GameMod::HiddenOsu(HiddenOsu::default())));
    match parse_mods("[72]", GameMode::Osu) {
        Err(ParseError::DeserializationFailure { message }) => {
            assert!(message.starts_with("failed to deserialize mod: "));
        }
        _ => panic!("expected a refused element"),
    }
}

#[test]
fn unknown_acronym_is_refused_with_its_mode() {
    match parse_mods(r#"["HD","XX"]"#, GameMode::Taiko) {
        Err(ParseError::UnknownModAcronym { acronym, mode }) => {
            assert_eq!(acronym, "XX");
            assert_eq!(mode, GameMode::Taiko);
        }
        _ => panic!("expected an unknown acronym"),
    }
    // Fade In is a mod of mania only.
    assert!(parse_mods(r#"["FI"]"#, GameMode::Mania).is_ok());
    match parse_mods(r#"["FI"]"#, GameMode::Osu) {
        Err(ParseError::UnknownModAcronym { acronym, mode }) => {
            assert_eq!(acronym, "FI");
            assert_eq!(mode, GameMode::Osu);
        }
        _ => panic!("expected an unknown acronym"),
    }
    let error = parse_mods(r#"{"acronym":"XX"}"#, GameMode::Catch).unwrap_err();
    assert_eq!(error.message(), "unknown mod acronym: XX");
}

#[test]
fn setting_of_the_wrong_type_is_refused() {
    let text = r#"[{"acronym":"DT","settings":{"speed_change":"fast"}}]"#;
    match parse_mods(text, GameMode::Osu) {
        Err(ParseError::InvalidSettingValue { acronym, setting, message }) => {
            assert_eq!(acronym, "DT");
            assert_eq!(setting, "speed_change");
            assert!(message.starts_with("failed to deserialize mod: "));
        }
        _ => panic!("expected a refused setting"),
    }
    let text = r#"{"acronym":"DT","settings":{"adjust_pitch":true,"speed_change":[1]}}"#;
    match parse_mods(text, GameMode::Taiko) {
        Err(ParseError::InvalidSettingValue { acronym, setting, .. }) => {
            assert_eq!(acronym, "DT");
            assert_eq!(setting, "speed_change");
        }
        _ => panic!("expected a refused setting"),
    }
    let text = r#"[{"acronym":"DA","settings":{"ok\"name":1,"circle_size":"big","drain_rate":false}}]"#;
    match parse_mods(text, GameMode::Osu) {
        Err(ParseError::InvalidSettingValue { acronym, setting, .. }) => {
            assert_eq!(acronym, "DA");
            assert_eq!(setting, "circle_size");
        }
        _ => panic!("expected a refused setting"),
    }
}

#[test]
fn object_refused_for_its_shape() {
    for text in [
        r#"[{"acronym":5}]"#,
        r#"[{"acronym":"DT","settings":5}]"#,
        r#"[{"settings":{"speed_change":1.5}}]"#,
        r#"[{"0":1,"acronym":"DT","settings":{"speed_change":1.5}}]"#,
        r#"[{"acronym":"DTDT","settings":{"speed_change":1.5}}]"#,
        r#"[{}]"#,
    ] {
        match parse_mods(text, GameMode::Osu) {
            Err(ParseError::DeserializationFailure { message }) => {
                assert!(message.starts_with("failed to deserialize mod: "), "{}", text);
            }
            _ => panic!("expected a refused element: {}", text),
        }
    }
}

#[test]
fn fields_of_an_object() {
    let fields = vec![
        ("acronym".to_string(), "\"DT\"".to_string()),
        ("settings".to_string(), "{}".to_string()),
    ];
    assert_eq!(find_field(&fields, "acronym"), Some("\"DT\"".to_string()));
    assert_eq!(find_field(&fields, "settings"), Some("{}".to_string()));
    assert_eq!(find_field(&fields, "Settings"), None);
    assert_eq!(find_field(&Vec::new(), "acronym"), None);
    let element = r#"{"acronym":"HD","settings":{"only_fade_approach_circles":3}}"#;
    assert_eq!(
        find_refused_setting(element, GameMode::Osu),
        Some(("HD".to_string(), "only_fade_approach_circles".to_string()))
    );
    assert_eq!(find_refused_setting(element, GameMode::Taiko), None);
    assert_eq!(find_refused_setting(r#"{"acronym":"HD"}"#, GameMode::Osu), None);
    assert_eq!(find_refused_setting(r#""HD""#, GameMode::Osu), None);
}

#[test]
fn unknown_fields_are_ignored() {
    let text = r#"[{"acronym":"DT","settings":{"speed_change":1.5,"volume":3},"note":"x"}]"#;
    let entries = lazer(parse_mods(text, GameMode::Osu).unwrap());
    match entries.iter().next() {
        Some(GameMod::DoubleTimeOsu(dt)) => assert_eq!(dt.speed_change, Some(1.5)),
        _ => panic!("expected double time"),
    }
}

#[test]
fn element_that_is_no_mod_is_refused() {
    for text in ["[null]", "[true]", "[[\"HD\"]]", r#"["HD", false]"#] {
        match parse_mods(text, GameMode::Osu) {
            Err(ParseError::DeserializationFailure { message }) => assert_eq!(
                message,
                "failed to deserialize mod: expected a string, a number or an object"
            ),
            _ => panic!("expected a refused element"),
        }
    }
}

#[test]
fn first_refused_element_decides() {
    match parse_mods(r#"["XX", null]"#, GameMode::Osu) {
        Err(ParseError::UnknownModAcronym { .. }) => (),
        _ => panic!("expected an unknown acronym"),
    }
    match parse_mods(r#"[null, "XX"]"#, GameMode::Osu) {
        Err(ParseError::DeserializationFailure { .. }) => (),
        _ => panic!("expected a refused element"),
    }
}

#[test]
fn empty_array_gives_an_empty_collection() {
    let entries = lazer(parse_mods("[]", GameMode::Osu).unwrap());
    assert_eq!(entries.len(), 0);
    assert_eq!(GameMods::Lazer(entries).to_legacy_bits(), 0);
}

#[test]
fn json_form_read_directly() {
    let entries = lazer(GameMods::from_json_str(r#""HD""#, GameMode::Osu).unwrap());
    assert!(entries.contains(&GameMod::HiddenOsu(HiddenOsu::default())));
    let entries = lazer(GameMods::from_json_str("64", GameMode::Osu).unwrap());
    assert!(entries.contains(&GameMod::DoubleTimeOsu(DoubleTimeOsu::default())));
    assert!(GameMods::from_json_str(r#" ["HD"]"#, GameMode::Osu).is_err());
}

#[test]
fn legacy_bits_round_trip() {
    for bits in [0u32, 8, 72, 1 << 30, u32::MAX] {
        assert_eq!(GameMods::from_legacy_bits(bits).to_legacy_bits(), bits);
    }
    assert_eq!(GameMods::default().to_legacy_bits(), 0);
    match GameMods::default() {
        GameMods::Legacy(legacy) => assert_eq!(legacy, GameModsLegacy::NoMod),
        _ => panic!("expected the legacy form"),
    }
}

#[test]
fn projection_passes_over_mods_without_a_bit() {
    let entries = lazer(parse_mods(r#"["HD","WU","DT"]"#, GameMode::Osu).unwrap());
    assert_eq!(entries.len(), 3);
    assert_eq!(GameMods::Lazer(entries).to_legacy_bits(), 8 + 64);
    assert_eq!(GameMods::from_acronyms("WUHDDT").to_legacy_bits(), 8 + 64);
    assert_eq!(GameMods::from_acronyms("WU").to_legacy_bits(), 0);
}

#[test]
fn clone_keeps_the_mods() {
    let mods = parse_mods(r#"["HD","DT"]"#, GameMode::Osu).unwrap();
    match (mods.clone(), mods) {
        (GameMods::Lazer(copy), GameMods::Lazer(first)) => assert!(copy == first),
        _ => panic!("expected the lazer form twice"),
    }
    let mods = parse_mods("HDWU", GameMode::Osu).unwrap();
    match (mods.clone(), mods) {
        (GameMods::Intermode(copy), GameMods::Intermode(first)) => assert!(copy == first),
        _ => panic!("expected the intermode form twice"),
    }
    let mods = parse_mods("72", GameMode::Osu).unwrap();
    match (mods.clone(), mods) {
        (GameMods::Legacy(copy), GameMods::Legacy(first)) => assert_eq!(copy, first),
        _ => panic!("expected the legacy form twice"),
    }
    let error = parse_mods("[null]", GameMode::Osu).unwrap_err();
    assert_eq!(error.clone().message(), error.message());
}

#[test]
fn trim_removes_unicode_white_space() {
    assert_eq!(trim("  HD \n"), "HD");
    assert_eq!(trim("\u{2003}H D\u{85}"), "H D");
    assert_eq!(trim("\u{200b}HD"), "\u{200b}HD");
    assert_eq!(trim(""), "");
    assert_eq!(trim(" \t "), "");
    for sample in ["", " a", "a ", "\u{1680}x\u{2028}\u{2029}", "\u{feff}x", " \u{e4} "] {
        assert_eq!(trim(sample), sample.trim());
    }
}

#[test]
fn white_space_is_what_char_says() {
    for code in 0u32..0x3100 {
        if let Some(c) = char::from_u32(code) {
            assert_eq!(is_whitespace(c), c.is_whitespace(), "U+{:04X}", code);
        }
    }
}

#[test]
fn decimal_numbers() {
    assert_eq!(parse_decimal("0"), Some(0));
    assert_eq!(parse_decimal("64"), Some(64));
    assert_eq!(parse_decimal("+7"), Some(7));
    assert_eq!(parse_decimal("007"), Some(7));
    assert_eq!(parse_decimal("4294967295"), Some(u32::MAX));
    assert_eq!(parse_decimal("4294967296"), None);
    assert_eq!(parse_decimal("99999999999999999999"), None);
    assert_eq!(parse_decimal(""), None);
    assert_eq!(parse_decimal("+"), None);
    assert_eq!(parse_decimal("-1"), None);
    assert_eq!(parse_decimal("++1"), None);
    assert_eq!(parse_decimal("1 "), None);
    assert_eq!(parse_decimal("12a"), None);
    assert_eq!(parse_decimal("\u{661}"), None);
    for sample in ["0", "+0", "42", "4294967295", "4294967296", "", "+", "-0", "1_000", "0x10"] {
        assert_eq!(parse_decimal(sample), sample.parse::<u32>().ok());
    }
}

#[test]
fn encodings() {
    assert_eq!(detect(""), Encoding::Empty);
    assert_eq!(detect("[1]"), Encoding::Json);
    assert_eq!(detect("{"), Encoding::Json);
    assert_eq!(detect("64"), Encoding::Bits(64));
    assert_eq!(detect("HDDT"), Encoding::Acronyms);
    assert_eq!(detect("6K"), Encoding::Acronyms);
}

#[test]
fn element_kinds() {
    assert_eq!(element_kind(r#""HD""#), ElementKind::Text);
    assert_eq!(element_kind("8"), ElementKind::Number);
    assert_eq!(element_kind("-8"), ElementKind::Number);
    assert_eq!(element_kind("1.5e3"), ElementKind::Number);
    assert_eq!(element_kind(r#"{"acronym":"HD"}"#), ElementKind::Object);
    assert_eq!(element_kind("null"), ElementKind::Other);
    assert_eq!(element_kind("true"), ElementKind::Other);
    assert_eq!(element_kind("[]"), ElementKind::Other);
    assert_eq!(element_kind(""), ElementKind::Other);
}

#[test]
fn one_element() {
    match resolve_element(r#""HR""#, GameMode::Catch) {
        Ok(GameMod::HardRockCatch(_)) => (),
        _ => panic!("expected hard rock"),
    }
    match resolve_element("-1", GameMode::Osu) {
        Err(ParseError::DeserializationFailure { .. }) => (),
        _ => panic!("expected a refused element"),
    }
}

#[test]
fn mode_numbers() {
    assert_eq!(GameMode::Osu.index(), 0);
    assert_eq!(GameMode::Taiko.index(), 1);
    assert_eq!(GameMode::Catch.index(), 2);
    assert_eq!(GameMode::Mania.index(), 3);
    assert_eq!(GameMode::from_index(0), Some(GameMode::Osu));
    assert_eq!(GameMode::from_index(1), Some(GameMode::Taiko));
    assert_eq!(GameMode::from_index(2), Some(GameMode::Catch));
    assert_eq!(GameMode::from_index(3), Some(GameMode::Mania));
    assert_eq!(GameMode::from_index(4), None);
    assert_eq!(GameMode::from_index(u32::MAX), None);
}

#[test]
fn same_acronym_in_another_mode_is_another_mod() {
    match resolve_element(r#""HD""#, GameMode::Mania) {
        Ok(GameMod::HiddenMania(_)) => (),
        _ => panic!("expected hidden of mania"),
    }
    let entries = lazer(parse_mods(r#"["MR"]"#, GameMode::Catch).unwrap());
    assert_eq!(GameMods::Lazer(entries).to_legacy_bits(), 1 << 30);
}
