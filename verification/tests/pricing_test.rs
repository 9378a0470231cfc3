use tid::engine::pricing::{plan_edit, tally_checks, CheckOutcome, Counts, EditError, EditField, KpiKind};

#[test]
fn test_edit_field_names() {
    assert_eq!(EditField::from_name("fascia"), Some(EditField::Fascia));
    assert_eq!(EditField::from_name("sconto_tariffa"), Some(EditField::ScontoTariffa));
    assert_eq!(EditField::from_name("ultima_rata"), None);
    assert_eq!(EditField::from_name("Fascia"), None);
}

#[test]
fn test_plan_edit_ok() {
    assert_eq!(plan_edit("P1", true, "VAR_CC", true, "rata_hs"), Ok(EditField::RataHs));
}

#[test]
fn test_plan_edit_product_not_found_first() {
    let e = plan_edit("P9", false, "X", false, "bogus").unwrap_err();
    assert_eq!(e, EditError::ProductNotFound("P9".to_string()));
    assert_eq!(e.message(), "Product not found: P9");
}

#[test]
fn test_plan_edit_unknown_field_before_mode() {
    let e = plan_edit("P1", true, "NOPE", false, "bogus").unwrap_err();
    assert_eq!(e.message(), "Unknown field: bogus");
}

#[test]
fn test_plan_edit_mode_not_found() {
    let e = plan_edit("P1", true, "NOPE", false, "fascia").unwrap_err();
    assert_eq!(e.message(), "Mode not found: NOPE");
}

fn outcome(mode: usize, kpi: KpiKind, passed: bool) -> CheckOutcome {
    CheckOutcome { mode, kpi, passed }
}

#[test]
fn test_tally_counts() {
    let checks = vec![
        outcome(0, KpiKind::Npv, true),
        outcome(0, KpiKind::PbPl, false),
        outcome(0, KpiKind::PbCash, true),
        outcome(2, KpiKind::Npv, true),
        outcome(6, KpiKind::Npv, false),
    ];
    let t = tally_checks(&checks);
    assert_eq!((t.checked, t.passed), (5, 3));
    assert_eq!(t.per_mode[0], Counts { checked: 3, passed: 2 });
    assert_eq!(t.per_mode[1], Counts { checked: 0, passed: 0 });
    assert_eq!(t.per_mode[2], Counts { checked: 1, passed: 1 });
    assert_eq!(t.per_mode[6], Counts { checked: 1, passed: 0 });
    assert_eq!(t.per_kpi[0], Counts { checked: 3, passed: 2 });
    assert_eq!(t.per_kpi[1], Counts { checked: 1, passed: 0 });
    assert_eq!(t.per_kpi[2], Counts { checked: 1, passed: 1 });
    let mode_total: usize = t.per_mode.iter().map(|c| c.checked).sum();
    let kpi_passed: usize = t.per_kpi.iter().map(|c| c.passed).sum();
    assert_eq!(mode_total, t.checked);
    assert_eq!(kpi_passed, t.passed);
}

#[test]
fn test_tally_empty() {
    let t = tally_checks(&Vec::new());
    assert_eq!((t.checked, t.passed), (0, 0));
    assert_eq!(t.per_mode.len(), 7);
    assert_eq!(t.per_kpi.len(), 3);
}

#[test]
fn test_kpi_kind_names() {
    assert_eq!(KpiKind::Npv.name(), "npv");
    assert_eq!(KpiKind::PbPl.name(), "pb_pl");
    assert_eq!(KpiKind::PbCash.name(), "pb_cash");
    assert_eq!(KpiKind::PbCash.index(), 2);
}
