use dsdl_parser::transfer::TransferKind;
use dsdl_parser::bench::fmt_thousands_sep;
use dsdl_parser::bench::mann;
use dsdl_parser::compiler::config::CompileConfig;
use dsdl_parser::compiler::config::DeriveDefault;
use dsdl_parser::compiler::config::ParseDeriveDefaultError;

#[test]
fn thousands_separators() {
    assert_eq!(fmt_thousands_sep(0, '_'), "0");
    assert_eq!(fmt_thousands_sep(999, '_'), "999");
    assert_eq!(fmt_thousands_sep(1000, '_'), "1_000");
    assert_eq!(fmt_thousands_sep(1_234_567, ','), "1,234,567");
    assert_eq!(fmt_thousands_sep(1_000_000_001, '_'), "1_000_000_001");
    assert_eq!(fmt_thousands_sep(20_000_050, ' '), "20 000 050");
    assert_eq!(fmt_thousands_sep(12_345_678_901_234, '_'), "12345_678_901_234");
}

#[test]
fn ackermann_values() {
    assert_eq!(mann(0, 0), 1);
    assert_eq!(mann(1, 2), 4);
    assert_eq!(mann(2, 3), 9);
    assert_eq!(mann(3, 5), 253);
}

#[test]
fn compile_config_defaults() {
    let c = CompileConfig::default();
    assert!(!c.data_type_signature);
    assert_eq!(c.derive_default, DeriveDefault::PrimitiveTypes);
    assert_eq!(DeriveDefault::default(), DeriveDefault::PrimitiveTypes);
    assert_eq!(DeriveDefault::from_str("primitive-types"), Ok(DeriveDefault::PrimitiveTypes));
    assert_eq!(DeriveDefault::from_str("all"), Err(ParseDeriveDefaultError::NotVariant));
}

#[test]
fn transfer_kinds_are_ordered() {
    assert!(TransferKind::Message < TransferKind::Response);
    assert!(TransferKind::Response < TransferKind::Request);
    assert_eq!(TransferKind::Request, TransferKind::Request.clone());
}
