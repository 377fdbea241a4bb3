use beamline::catalog::{
    backup_name, backup_path, catalog_dir_action, catalog_full_path, data_file_path, manifest_file_path,
    manifest_text, sanitize_filename, script_file_path, shape_file_path, CatalogDirAction,
};
use beamline::cliargs::{epoch_ms_parser, iso_parser};
use beamline::numparse::{parse_i64, parse_u64, IntErrorKind};

#[test]
fn catalog_layout() {
    let full = catalog_full_path("cat", "/tmp/dbs");
    assert_eq!(full, "/tmp/dbs/cat/");
    assert_eq!(manifest_file_path(&full), "/tmp/dbs/cat/.beamline-manifest");
    assert_eq!(script_file_path(&full), "/tmp/dbs/cat/.beamline-script");
    assert_eq!(shape_file_path(&full, "sensors"), "/tmp/dbs/cat//sensors.shape.ion");
    assert_eq!(data_file_path(&full, "sensors"), "/tmp/dbs/cat//sensors.ion");
    assert_eq!(backup_name("cat", "2024"), "cat.2024.bkp");
    assert_eq!(backup_path("/tmp/dbs", "cat.2024.bkp"), "/tmp/dbs/cat.2024.bkp");
}

#[test]
fn manifest_holds_seed_and_start() {
    assert_eq!(manifest_text(1234, "2024-01-01T00:00:00Z"), r#"{"seed": "1234", "start": "2024-01-01T00:00:00Z", "ddl_syntax.version": "partiql_datatype_syntax.0.1" }"#);
}

#[test]
fn catalog_dir_actions() {
    assert_eq!(catalog_dir_action(true, true), CatalogDirAction::BackUpAndRecreate);
    assert_eq!(catalog_dir_action(true, false), CatalogDirAction::Create);
    assert_eq!(catalog_dir_action(false, true), CatalogDirAction::CreateOrExit);
}

#[test]
fn unsafe_file_name_characters_replaced() {
    assert_eq!(sanitize_filename("a/b\\c\0d"), "a_b_c_d");
    assert_eq!(sanitize_filename("plain"), "plain");
}

#[test]
fn integers_parse_as_rust_does() {
    assert_eq!(parse_i64("-42"), Ok(-42));
    assert_eq!(parse_i64("+7"), Ok(7));
    assert_eq!(parse_i64(""), Err(IntErrorKind::Empty));
    assert_eq!(parse_i64("-"), Err(IntErrorKind::InvalidDigit));
    assert_eq!(parse_i64("9223372036854775808"), Err(IntErrorKind::PosOverflow));
    assert_eq!(parse_i64("-9223372036854775809"), Err(IntErrorKind::NegOverflow));
    assert_eq!(parse_u64("18446744073709551615"), Ok(u64::MAX));
    assert_eq!(parse_u64("-1"), Err(IntErrorKind::InvalidDigit));
}

#[test]
fn start_times_from_epoch_ms_and_iso() {
    let t = epoch_ms_parser("1712358177000").expect("epoch");
    assert_eq!(t.unix_nanos, 1_712_358_177_000_000_000);
    let one = epoch_ms_parser("1000").expect("epoch");
    assert_eq!(one.unix_nanos, 1_000_000_000);
    assert_eq!(epoch_ms_parser("-1").expect("epoch").unix_nanos, -1_000_000);
    assert_eq!(epoch_ms_parser("253402300799999").expect("last ms").unix_nanos, 253_402_300_799_999_000_000);
    assert_eq!(epoch_ms_parser("253402300800000").expect_err("out of range"), "timestamp was not in range");
    assert_eq!(t.offset_seconds, 0);
    assert_eq!(epoch_ms_parser("x").expect_err("not a number"), "invalid digit found in string");
    let i = iso_parser("2024-04-05T23:02:57+01:00").expect("iso");
    assert_eq!(i.unix_nanos, 1_712_354_577_000_000_000);
    assert_eq!(i.offset_seconds, 3600);
    assert!(iso_parser("yesterday").is_err());
}
