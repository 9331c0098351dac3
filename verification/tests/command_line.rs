//! The command lines of the two simulations.

use midn_core::cli::{check_options, parse_endpoint, parse_u32, Endpoint, OptionError};
use midn_core::midn_sim::args::{parse_args, ArgsError, Role, AMF_BIND_IP, AMF_BIND_PORT};
use midn_core::mme_sim::args as lte;
use midn_core::mme_sim::args::{MME_BIND_IP, MME_BIND_PORT};

fn args(v: &[&str]) -> Vec<String> {
    v.iter().map(|s| s.to_string()).collect()
}

fn endpoint(ip: [u8; 4], port: u16) -> Endpoint {
    Endpoint { ip, port }
}

// ── The 5G simulation ─────────────────────────────────────────────────────────

#[test]
fn no_args_means_both() {
    assert!(matches!(parse_args(&args(&[])), Ok(Role::Both { n_ues: 1 })));
}

#[test]
fn explicit_role_both() {
    assert!(matches!(parse_args(&args(&["--role", "both"])), Ok(Role::Both { n_ues: 1 })));
}

#[test]
fn amf_role_defaults_bind_addr() {
    match parse_args(&args(&["--role", "amf"])) {
        Ok(Role::Amf { bind, n_ues: 1 }) => {
            assert_eq!(bind, endpoint(AMF_BIND_IP, AMF_BIND_PORT));
            assert_eq!(bind, endpoint([127, 0, 0, 1], 38412));
        }
        other => panic!("expected Role::Amf with the default bind addr, got {other:?}"),
    }
}

#[test]
fn amf_role_with_explicit_bind() {
    match parse_args(&args(&["--role", "amf", "--bind", "10.99.0.1:38412"])) {
        Ok(Role::Amf { bind, n_ues: 1 }) => assert_eq!(bind, endpoint([10, 99, 0, 1], 38412)),
        other => panic!("expected Role::Amf with the given bind addr, got {other:?}"),
    }
}

#[test]
fn ue_role_requires_bind_and_amf() {
    match parse_args(&args(&["--role", "ue", "--bind", "10.99.0.2:0", "--amf", "10.99.0.1:38412"])) {
        Ok(Role::Ue { bind, amf, n_ues: 1 }) => {
            assert_eq!(bind, endpoint([10, 99, 0, 2], 0));
            assert_eq!(amf, endpoint([10, 99, 0, 1], 38412));
        }
        other => panic!("expected Role::Ue with both addrs, got {other:?}"),
    }
}

#[test]
fn ue_role_without_bind_is_an_error() {
    let r = parse_args(&args(&["--role", "ue", "--amf", "10.99.0.1:38412"]));
    assert!(r.is_err());
    assert!(matches!(r, Err(ArgsError::UeNeedsBind)));
}

#[test]
fn ue_role_without_amf_is_an_error() {
    let r = parse_args(&args(&["--role", "ue", "--bind", "10.99.0.2:0"]));
    assert!(r.is_err());
    assert!(matches!(r, Err(ArgsError::UeNeedsAmf)));
}

#[test]
fn unknown_role_is_an_error() {
    let r = parse_args(&args(&["--role", "upf"]));
    assert!(r.is_err());
    assert!(matches!(r, Err(ArgsError::UnknownRole(role)) if role == "upf"));
}

#[test]
fn unrecognized_flag_is_an_error() {
    let r = parse_args(&args(&["--wat", "huh"]));
    assert!(r.is_err());
    assert!(matches!(r, Err(ArgsError::Options(OptionError::Unrecognized(flag))) if flag == "--wat"));
}

#[test]
fn bad_addr_is_an_error() {
    let r = parse_args(&args(&["--role", "amf", "--bind", "not-an-addr"]));
    assert!(r.is_err());
    assert!(matches!(r, Err(ArgsError::BadBind)));
}

#[test]
fn n_ues_explicit_value_is_parsed() {
    match parse_args(&args(&[
        "--role", "ue", "--bind", "10.99.0.2:0", "--amf", "10.99.0.1:38412", "--n-ues", "3",
    ])) {
        Ok(Role::Ue { n_ues: 3, .. }) => {}
        other => panic!("expected Role::Ue with n_ues=3, got {other:?}"),
    }
}

#[test]
fn n_ues_zero_is_an_error() {
    let r = parse_args(&args(&[
        "--role", "ue", "--bind", "10.99.0.2:0", "--amf", "10.99.0.1:38412", "--n-ues", "0",
    ]));
    assert!(r.is_err());
    assert!(matches!(r, Err(ArgsError::ZeroUeCount)));
}

#[test]
fn n_ues_non_numeric_is_an_error() {
    let r = parse_args(&args(&["--role", "amf", "--n-ues", "many"]));
    assert!(r.is_err());
    assert!(matches!(r, Err(ArgsError::BadUeCount)));
}

#[test]
fn bad_amf_addr_is_an_error() {
    let r = parse_args(&args(&["--role", "ue", "--bind", "10.99.0.2:0", "--amf", "10.99.0.1"]));
    assert!(matches!(r, Err(ArgsError::BadAmf)));
}

#[test]
fn flag_without_a_value_is_an_error() {
    let r = parse_args(&args(&["--role"]));
    assert!(matches!(r, Err(ArgsError::Options(OptionError::NeedsValue(flag))) if flag == "--role"));
}

// ── The LTE simulation ────────────────────────────────────────────────────────

#[test]
fn main_no_args_means_both() {
    assert!(matches!(lte::parse_args(&args(&[])), Ok(lte::Role::Both)));
}

#[test]
fn main_explicit_role_both() {
    assert!(matches!(lte::parse_args(&args(&["--role", "both"])), Ok(lte::Role::Both)));
}

#[test]
fn mme_role_defaults_bind_addr() {
    match lte::parse_args(&args(&["--role", "mme"])) {
        Ok(lte::Role::Mme { bind }) => {
            assert_eq!(bind, endpoint(MME_BIND_IP, MME_BIND_PORT));
            assert_eq!(bind, endpoint([127, 0, 0, 1], 36412));
        }
        other => panic!("expected Role::Mme with the default bind addr, got {other:?}"),
    }
}

#[test]
fn mme_role_with_explicit_bind() {
    match lte::parse_args(&args(&["--role", "mme", "--bind", "10.98.0.1:36412"])) {
        Ok(lte::Role::Mme { bind }) => assert_eq!(bind, endpoint([10, 98, 0, 1], 36412)),
        other => panic!("expected Role::Mme with the given bind addr, got {other:?}"),
    }
}

#[test]
fn ue_role_requires_bind_and_mme() {
    match lte::parse_args(&args(&["--role", "ue", "--bind", "10.98.0.2:0", "--mme", "10.98.0.1:36412"])) {
        Ok(lte::Role::Ue { bind, mme }) => {
            assert_eq!(bind, endpoint([10, 98, 0, 2], 0));
            assert_eq!(mme, endpoint([10, 98, 0, 1], 36412));
        }
        other => panic!("expected Role::Ue with both addrs, got {other:?}"),
    }
}

#[test]
fn main_ue_role_without_bind_is_an_error() {
    let r = lte::parse_args(&args(&["--role", "ue", "--mme", "10.98.0.1:36412"]));
    assert!(r.is_err());
    assert!(matches!(r, Err(lte::ArgsError::UeNeedsBind)));
}

#[test]
fn ue_role_without_mme_is_an_error() {
    let r = lte::parse_args(&args(&["--role", "ue", "--bind", "10.98.0.2:0"]));
    assert!(r.is_err());
    assert!(matches!(r, Err(lte::ArgsError::UeNeedsMme)));
}

#[test]
fn main_unknown_role_is_an_error() {
    let r = lte::parse_args(&args(&["--role", "upf"]));
    assert!(r.is_err());
    assert!(matches!(r, Err(lte::ArgsError::UnknownRole(role)) if role == "upf"));
}

#[test]
fn main_unrecognized_flag_is_an_error() {
    let r = lte::parse_args(&args(&["--wat", "huh"]));
    assert!(r.is_err());
    assert!(matches!(r, Err(lte::ArgsError::Options(OptionError::Unrecognized(_)))));
}

#[test]
fn main_bad_addr_is_an_error() {
    let r = lte::parse_args(&args(&["--role", "mme", "--bind", "not-an-addr"]));
    assert!(r.is_err());
    assert!(matches!(r, Err(lte::ArgsError::BadBind)));
}

#[test]
fn bad_mme_addr_is_an_error() {
    let r = lte::parse_args(&args(&["--role", "ue", "--bind", "10.98.0.2:0", "--mme", "here"]));
    assert!(matches!(r, Err(lte::ArgsError::BadMme)));
}

// ── Values ────────────────────────────────────────────────────────────────────

#[test]
fn numbers_are_read_as_32_bits() {
    assert_eq!(parse_u32("0"), Some(0));
    assert_eq!(parse_u32("+7"), Some(7));
    assert_eq!(parse_u32("007"), Some(7));
    assert_eq!(parse_u32("4294967295"), Some(u32::MAX));
    for text in ["4294967296", "", "+", "-1", "1 ", "0x10", "many"] {
        assert_eq!(parse_u32(text), None, "{text}");
    }
}

#[test]
fn endpoints_are_an_address_and_a_port() {
    assert_eq!(parse_endpoint("0.0.0.0:0"), Some(endpoint([0, 0, 0, 0], 0)));
    assert_eq!(parse_endpoint("255.1.20.3:65535"), Some(endpoint([255, 1, 20, 3], 65535)));
    for text in ["1.2.3.4", "1.2.3:4", "1.2.3.4.5:6", "256.1.1.1:1", "1.2.3.4:65536", "01.2.3.4:5", "1.2.3.4:", ":1"] {
        assert!(parse_endpoint(text).is_none(), "{text}");
    }
}

#[test]
fn the_first_bad_option_is_reported() {
    let known = ["--a", "--b"];
    assert!(check_options(&args(&["--a", "1", "--b", "2"]), &known).is_ok());
    assert!(matches!(
        check_options(&args(&["--a", "1", "--c", "2", "--d"]), &known),
        Err(OptionError::Unrecognized(flag)) if flag == "--c"
    ));
    assert!(matches!(
        check_options(&args(&["--a", "1", "--b"]), &known),
        Err(OptionError::NeedsValue(flag)) if flag == "--b"
    ));
}
