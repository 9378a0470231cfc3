use tid::api::products::ApproveRequest;
use tid::api::upload::upload_target_name;
use tid::engine::churn::{check_curve_lengths, CHURN_MONTHS};
use tid::paths::{resolve_input, InputLocation};

fn ok(name: &str) -> Result<String, String> {
    Ok(name.to_string())
}

#[test]
fn test_upload_names() {
    assert_eq!(upload_target_name("Listino_CVM_ECONOMICS.xlsx"), ok("Listino_CVM_ECONOMICS_UPLOADED.xlsx"));
    assert_eq!(upload_target_name("my_FASCE_v2.xlsx"), ok("Listino_CVM_FASCE_UPLOADED.xlsx"));
    assert_eq!(upload_target_name("whatever.xlsb"), ok("output_TI_CVM_UPLOADED.xlsb"));
    assert_eq!(upload_target_name("output_TI_CVM.xlsx"), ok("output_TI_CVM_UPLOADED.xlsx"));
    // ECONOMICS wins over a binary extension
    assert_eq!(upload_target_name("ECONOMICS.xlsb"), ok("Listino_CVM_ECONOMICS_UPLOADED.xlsx"));
}

#[test]
fn test_upload_other_workbook_gets_suffix() {
    assert_eq!(upload_target_name("prices.xlsx"), ok("prices_UPLOADED.xlsx"));
    assert_eq!(upload_target_name(".xlsx"), ok("_UPLOADED.xlsx"));
}

#[test]
fn test_upload_stays_in_inputs() {
    assert_eq!(upload_target_name("../x.xlsx"), ok("x_UPLOADED.xlsx"));
    assert_eq!(upload_target_name("a/b/../../prices.xlsx"), ok("prices_UPLOADED.xlsx"));
    assert_eq!(upload_target_name("C:\\data\\prices.xlsx"), ok("prices_UPLOADED.xlsx"));
    assert_eq!(upload_target_name("../output.xlsx"), ok("output_TI_CVM_UPLOADED.xlsx"));
}

#[test]
fn test_upload_refuses_other_files() {
    assert_eq!(
        upload_target_name("notes.txt"),
        Err("Only .xlsx and .xlsb files can be uploaded: notes.txt".to_string())
    );
    assert!(upload_target_name("TI_CVM.xls").is_err());
    assert!(upload_target_name("ECONOMICS.csv").is_err());
    assert!(upload_target_name("").is_err());
}

#[test]
fn test_approve_label() {
    let with = ApproveRequest { label: Some("v2024-Q1".to_string()) };
    assert_eq!(with.label_or_default("P1"), "v2024-Q1");
    let without = ApproveRequest { label: None };
    assert_eq!(without.label_or_default("P1"), "approve-P1");
}

#[test]
fn test_churn_lengths() {
    assert_eq!(CHURN_MONTHS, 42);
    assert!(check_curve_lengths(42, 42).is_ok());
    assert_eq!(check_curve_lengths(41, 42).unwrap_err(), "Churn curves must have exactly 42 values");
    assert!(check_curve_lengths(42, 0).is_err());
}

#[test]
fn test_resolve_input_prefers_inputs() {
    assert_eq!(resolve_input("a.xlsx", true, true), Ok(InputLocation::Inputs));
    assert_eq!(resolve_input("a.xlsx", false, true), Ok(InputLocation::Sources));
    assert_eq!(
        resolve_input("a.xlsx", false, false),
        Err("File 'a.xlsx' not found in data/inputs/ or data/sources/".to_string())
    );
}

#[test]
fn test_data_directory_layout() {
    assert_eq!(tid::paths::data_dir(), vec!["data"]);
    assert_eq!(tid::paths::sources_dir(), vec!["data", "sources"]);
    assert_eq!(tid::paths::inputs_dir(), vec!["data", "inputs"]);
    assert_eq!(tid::paths::exports_dir(), vec!["data", "exports"]);
    assert_eq!(tid::paths::archive_dir(), vec!["data", "archive"]);
    assert_eq!(tid::paths::frontend_dir(), vec!["frontend", "dist"]);
}
