use jetsongpio::cli::{lookup_mux_register, pinmux_lookup, CliError};
use jetsongpio::error::Error;
use jetsongpio::gpio_pin_data::{
    first_with_prefix, get_data, hash_string, match_model, matches_any, model_from_env,
    carrier_boards, nano_revision_ok, parse_compatibles, select_model, split_white_space, ModelChoice, ModelSelection, str_contains, str_starts_with, trim_white_space, GpioPin,
    JetsonInfo, Mode,
};
use std::collections::hash_map::DefaultHasher;
use std::hash::{Hash, Hasher};

fn info() -> JetsonInfo {
    JetsonInfo {
        p1_revision: 1,
        ram: "4096M".to_string(),
        revision: "Unknown".to_string(),
        type_: "Jetson Test".to_string(),
        manufacturer: "NVIDIA".to_string(),
        processor: "ARM A57".to_string(),
    }
}

fn pins() -> Vec<GpioPin> {
    vec![
        GpioPin::new(216, "GPIO3_PBB.00", "tegra-gpio", 7, 4, "GPIO09", "AUD_MCLK", None, None, Some(0x700031fc)),
        GpioPin::new(50, "GPIO3_PG.02", "tegra-gpio", 11, 17, "UART1_RTS", "UART2_RTS", None, None, None),
        GpioPin::new(12, "GPIO3_PB.04", "tegra-gpio", 7, 21, "DUP", "DUP_SOC", None, None, Some(0x1234)),
    ]
}

fn std_hash(s: &str) -> u64 {
    let mut h = DefaultHasher::new();
    s.hash(&mut h);
    h.finish()
}

#[test]
fn mode_names() {
    assert_eq!(Mode::BOARD.to_str(), "BOARD");
    assert_eq!(Mode::BCM.to_str(), "BCM");
    assert_eq!(Mode::TegraSoc.to_str(), "TegraSoc");
    assert_eq!(Mode::CVM.to_str(), "CVM");
    assert!(Mode::CVM.is_valid());
}

#[test]
fn hash_matches_std_string_hashing() {
    for s in ["", "GPIO09", "AUD_MCLK", "é✓"] {
        assert_eq!(hash_string(s), std_hash(s));
    }
}

#[test]
fn gpio_pin_new_copies_fields() {
    let p = GpioPin::new(1, "a", "b", 2, 3, "c", "d", Some("e"), Some(4), None);
    assert_eq!(p.gpio_name, "a");
    assert_eq!(p.pwm_chip_sysfs_dir.as_deref(), Some("e"));
    assert_eq!(p.pwm_id, Some(4));
    assert_eq!(p.padctl_addr, None);
}

#[test]
fn tables_per_mode() {
    let (model, info, tables) = get_data("JETSON_NANO".to_string(), info(), &pins());
    assert_eq!(model, "JETSON_NANO");
    assert_eq!(info.p1_revision, 1);
    // a later pin with the same board number replaces the earlier one
    assert_eq!(tables.board.len(), 2);
    let c7 = tables.board.get(&7).unwrap();
    assert_eq!(c7.channel, 7);
    assert_eq!(c7.line_offset, 12);
    assert_eq!(c7.gpio_name, "GPIO3_PB.04");
    assert_eq!(c7.consumer, "Jetson-gpio");
    assert_eq!(c7.reg_addr, Some(0x1234));
    assert_eq!(c7.line_handle, None);
    assert_eq!(tables.bcm.len(), 3);
    assert_eq!(tables.bcm.get(&17).unwrap().line_offset, 50);
    let key = std_hash("UART1_RTS") as u32;
    assert_eq!(tables.cvm.get(&key).unwrap().channel, key);
    let key = std_hash("AUD_MCLK") as u32;
    assert_eq!(tables.tegra_soc.get(&key).unwrap().line_offset, 216);
    assert_eq!(tables.table(Mode::BCM).len(), 3);
}

#[test]
fn substring_search() {
    assert!(str_contains("nvidia,p3450-0000", "p3450"));
    assert!(str_contains("abc", ""));
    assert!(!str_contains("ab", "abc"));
    assert!(!str_contains("nvidia,tegra210", "tegra186"));
}

#[test]
fn compatible_matching() {
    let compatibles = vec!["nvidia,p3449-0000-b00+p3448-0000-b00".to_string(), "nvidia,tegra210".to_string()];
    assert!(matches_any(&compatibles, &["nvidia,tegra210"]));
    assert!(!matches_any(&compatibles, &["nvidia,tegra194", "nvidia,p2888"]));
    assert!(!matches_any(&compatibles, &[]));
    let table = vec![vec!["nvidia,tegra194"], vec!["nvidia,p3448", "x"], vec!["tegra210"]];
    // "nvidia,p3448" is not a substring of either compatible string, so the third entry decides
    assert_eq!(match_model(&compatibles, &table), Some(2));
    assert_eq!(match_model(&compatibles, &table[..1]), None);
    let table2 = vec![vec!["nvidia,tegra194"], vec!["p3448-0000", "x"], vec!["tegra210"]];
    assert_eq!(match_model(&compatibles, &table2), Some(1));
}

#[test]
fn compatible_file_parsing() {
    let buf = b"nvidia,p3509\0nvidia,tegra234\0\0\xff\xfe\0".to_vec();
    let v = parse_compatibles(&buf).unwrap();
    assert_eq!(v, vec!["nvidia,p3509".to_string(), "nvidia,tegra234".to_string()]);
    assert_eq!(parse_compatibles(&b"\0\0".to_vec()), Err(Error::NoCompatibleStrings));
    assert_eq!(parse_compatibles(&Vec::new()), Err(Error::NoCompatibleStrings));
    assert_eq!(parse_compatibles(&b"last".to_vec()).unwrap(), vec!["last".to_string()]);
}

#[test]
fn nano_revisions() {
    assert!(nano_revision_ok("3448-0000-200"));
    assert!(nano_revision_ok("3448-0000-300"));
    assert!(!nano_revision_ok("3448-0000-100"));
    assert!(!nano_revision_ok("3448-0000-1999"));
    assert!(nano_revision_ok("3448-0000-2000"));
    // with no '-' the whole id is compared, and "3448" sorts after "200"
    assert!(nano_revision_ok("3448"));
    assert!(!nano_revision_ok("1"));
    assert!(!nano_revision_ok(""));
}

#[test]
fn model_names_from_environment() {
    let models = ["JETSON_NANO", "JETSON_ORIN_NX"];
    assert_eq!(model_from_env("  JETSON_ORIN_NX\n", &models), Some("JETSON_ORIN_NX".to_string()));
    assert_eq!(model_from_env("JETSON_ORIN", &models), None);
}

#[test]
fn prefix_search() {
    assert!(str_starts_with("3448-0000-300", "3448"));
    assert!(!str_starts_with("344", "3448"));
    let names = vec!["2180-1000".to_string(), "3449-0000-b00".to_string(), "3448-0002-400".to_string()];
    assert_eq!(first_with_prefix(&names, "3448"), Some(2));
    assert_eq!(first_with_prefix(&names, "3449"), Some(1));
    assert_eq!(first_with_prefix(&names, "3509"), None);
}

#[test]
fn mux_register_lookup() {
    let p = pins();
    // the first pin with the board number decides
    assert_eq!(lookup_mux_register(7, &p), Some(0x700031fc));
    assert_eq!(lookup_mux_register(11, &p), None);
    assert_eq!(lookup_mux_register(40, &p), None);
    assert_eq!(pinmux_lookup(7, "JETSON_NANO".to_string(), &p).unwrap(), 0x700031fc);
    match pinmux_lookup(11, "JETSON_NANO".to_string(), &p) {
        Err(CliError::PinNotFound(pin, model)) => {
            assert_eq!(pin, 11);
            assert_eq!(model, "JETSON_NANO");
        }
        _ => panic!("expected PinNotFound"),
    }
}

#[test]
fn white_space_trimming() {
    assert_eq!(trim_white_space("  JETSON_NANO\n"), "JETSON_NANO");
    assert_eq!(trim_white_space("\t\r\x0b\x0c a b \u{3000}\u{a0}"), "a b");
    assert_eq!(trim_white_space("   "), "");
    assert_eq!(trim_white_space(""), "");
    // an inner space stays, and a zero-width space is not white space
    assert_eq!(trim_white_space("\u{200b}x y"), "\u{200b}x y");
    for s in ["  a ", "\u{2028}b\u{85}", "c\u{1680}", "\u{205f}\u{202f}d"] {
        assert_eq!(trim_white_space(s), s.trim());
    }
}

fn choice(
    testing: Option<&str>,
    device_tree: Option<Option<&[String]>>,
    nano: Option<&str>,
    fallback: Option<&str>,
) -> ModelSelection {
    let models = ["JETSON_TX1", "JETSON_NANO", "JETSON_ORIN"];
    let table = vec![vec!["nvidia,p2371-2180"], vec!["nvidia,p3450-0000"], vec!["nvidia,p3737-0000"]];
    select_model(testing, device_tree, nano, fallback, &models, &table)
}

#[test]
fn model_selection_order() {
    let orin = vec!["nvidia,p3737-0000+p3701-0000".to_string(), "nvidia,tegra234".to_string()];
    let nano = vec!["nvidia,p3450-0000".to_string()];
    let other = vec!["acme,board".to_string()];
    // the testing variable wins, before the device tree is read
    assert_eq!(choice(Some(" JETSON_TX1\n"), None, None, Some("JETSON_ORIN")).choice, ModelChoice::Named(0));
    // an invalid testing variable is reported, and the device tree is asked for
    let s = choice(Some("JETSON_XYZ"), None, None, None);
    assert_eq!(s.choice, ModelChoice::NeedCompatibles);
    assert!(s.testing_invalid);
    // the device tree comes before the fallback variable
    assert_eq!(
        choice(None, Some(Some(&orin[..])), None, Some("JETSON_TX1")).choice,
        ModelChoice::Detected(2)
    );
    // a Nano needs its module id, and old modules are refused
    assert_eq!(choice(None, Some(Some(&nano[..])), None, None).choice, ModelChoice::NeedNanoModuleId);
    assert_eq!(
        choice(None, Some(Some(&nano[..])), Some("3448-0000-100"), None).choice,
        ModelChoice::NanoTooOld
    );
    assert_eq!(
        choice(None, Some(Some(&nano[..])), Some("3448-0000-300"), None).choice,
        ModelChoice::Detected(1)
    );
    // no match, or no device tree: the fallback variable decides
    assert_eq!(choice(None, Some(Some(&other[..])), None, Some("JETSON_ORIN")).choice, ModelChoice::Named(2));
    assert_eq!(choice(None, Some(None), None, Some("JETSON_NANO")).choice, ModelChoice::Named(1));
    let s = choice(None, Some(None), None, Some("bogus"));
    assert_eq!(s.choice, ModelChoice::Undetermined);
    assert!(s.fallback_invalid);
    let s = choice(None, Some(None), None, None);
    assert_eq!(s.choice, ModelChoice::Undetermined);
    assert!(!s.fallback_invalid);
}

#[test]
fn board_ids_split_on_white_space() {
    assert_eq!(
        split_white_space("3448-0000-300 \n 3449-0000-b00\t2180"),
        vec!["3448-0000-300".to_string(), "3449-0000-b00".to_string(), "2180".to_string()]
    );
    assert_eq!(split_white_space("  \n\t "), Vec::<String>::new());
    assert_eq!(split_white_space(""), Vec::<String>::new());
    assert_eq!(split_white_space("one"), vec!["one".to_string()]);
    for s in ["a  b\u{3000}c\u{a0}", " x\u{2028}y ", "\u{85}z"] {
        let expected: Vec<String> = s.split_whitespace().map(|w| w.to_string()).collect();
        assert_eq!(split_white_space(s), expected);
    }
}

#[test]
fn carrier_boards_of_models() {
    assert_eq!(carrier_boards("JETSON_TX1"), vec!["2597"]);
    assert_eq!(carrier_boards("JETSON_TX2"), vec!["2597"]);
    assert_eq!(carrier_boards("CLARA_AGX_XAVIER"), vec!["3900"]);
    assert_eq!(carrier_boards("JETSON_TX2_NX"), vec!["3509"]);
    assert_eq!(carrier_boards("JETSON_XAVIER"), vec!["2822"]);
    assert_eq!(carrier_boards("JETSON_NANO"), vec!["3449", "3542"]);
    assert_eq!(carrier_boards("JETSON_NX"), vec!["3509", "3449"]);
    assert_eq!(carrier_boards("JETSON_ORIN"), vec!["3737"]);
    assert_eq!(carrier_boards("JETSON_ORIN_NX"), vec!["3509", "3768"]);
    assert_eq!(carrier_boards("JETSON_ORIN_NANO"), vec!["3509", "3768"]);
    assert_eq!(carrier_boards("JETSON_THOR_REFERENCE"), vec!["3971", "4071"]);
    assert!(carrier_boards("JETSON_UNKNOWN").is_empty());
}
