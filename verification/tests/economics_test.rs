use tid::engine::economics::{
    annual_rate_basis, bad_debt_key, bad_debt_mode_map, cashflow_schedule, commission_key, fallback_divisor,
    fin_rate_map, kpi_verdict, lookup_fin, missing_data_verdict, mode_commission_map, monthly_installments,
    net_arpu_key, net_arpu_key_of_upper, normalize_duration, number_text, profile_arpu_map, smart_installments, target_pb_group,
    PaybackGroup,
};

#[test]
fn test_cashflow_24m_layout() {
    let cfs = cashflow_schedule(-320, 16, 5, 99, 24);
    assert_eq!(cfs.len(), 25);
    assert_eq!(cfs[0], -320);
    assert!(cfs[1..24].iter().all(|&c| c == 16));
    assert_eq!(cfs[24], 99);
}

#[test]
fn test_cashflow_30m_layout() {
    let cfs = cashflow_schedule(-400, 20, 5, 7, 30);
    assert_eq!(cfs.len(), 31);
    assert_eq!(cfs[0], -400);
    assert!(cfs[1..25].iter().all(|&c| c == 20));
    assert!(cfs[25..30].iter().all(|&c| c == 5));
    assert_eq!(cfs[30], 7);
}

#[test]
fn test_cashflow_36m_layout() {
    let cfs = cashflow_schedule(1, 2, 3, 4, 36);
    assert_eq!(cfs.len(), 37);
    assert!(!cfs.contains(&3));
    assert_eq!(cfs[36], 4);
}

#[test]
fn test_cashflow_other_duration_counts_as_30() {
    assert_eq!(normalize_duration(12), 30);
    assert_eq!(normalize_duration(24), 24);
    assert_eq!(normalize_duration(36), 36);
    assert_eq!(cashflow_schedule(0, 0, 0, 0, 48).len(), 31);
}

#[test]
fn test_schedule_length_is_duration_plus_one() {
    for d in [0u32, 1, 24, 30, 36, 100] {
        let n = normalize_duration(d) as usize + 1;
        assert_eq!(cashflow_schedule(0u8, 0, 0, 0, d).len(), n);
    }
}

#[test]
fn test_installment_counts() {
    assert_eq!((monthly_installments(24), smart_installments(24), fallback_divisor(24)), (23, 0, 24));
    assert_eq!((monthly_installments(30), smart_installments(30), fallback_divisor(30)), (24, 5, 24));
    assert_eq!((monthly_installments(36), smart_installments(36), fallback_divisor(36)), (35, 0, 36));
}

#[test]
fn test_verdict_pass() {
    let (status, reason) = kpi_verdict(false, 10, 12, 12);
    assert_eq!(status, "PASS");
    assert_eq!(reason, "OK");
}

#[test]
fn test_verdict_all_reasons() {
    let (status, reason) = kpi_verdict(true, -1, 20, 12);
    assert_eq!(status, "ALERT");
    assert_eq!(reason, "NPV<0, PB_P&L>target, PB_CASH>target");
}

#[test]
fn test_verdict_single_reason() {
    assert_eq!(kpi_verdict(false, 3, -1, 16).1, "PB_CASH>target");
    assert_eq!(kpi_verdict(true, 3, 4, 16).1, "NPV<0");
    assert_eq!(kpi_verdict(false, 17, 4, 16).1, "PB_P&L>target");
}

#[test]
fn test_missing_data_verdict() {
    let (s, r) = missing_data_verdict();
    assert_eq!(s, "MISSING_DATA");
    assert_eq!(r, "TP o fascia non impostati");
}

#[test]
fn test_bad_debt_keys() {
    assert_eq!(bad_debt_key("VAR_RID"), Some("BAD_DEBT_RID"));
    assert_eq!(bad_debt_key("VAR_CC"), Some("BAD_DEBT_CC"));
    assert_eq!(bad_debt_key("RELOAD_FINDO"), Some("BAD_DEBT_CC"));
    assert_eq!(bad_debt_key("FIN_COMPASS"), None);
    assert_eq!(bad_debt_key("FIN_FINDO"), None);
}

#[test]
fn test_fin_rate_keys() {
    assert_eq!(lookup_fin("FIN_COMPASS"), Some(("RATE_COMPASS", "RATE_COMPASS_CUSTOMER")));
    assert_eq!(lookup_fin("FIN_FINDO"), Some(("RATE_FINDO", "RATE_FINDO_CUSTOMER")));
    assert_eq!(lookup_fin("VAR_CC"), None);
    assert_eq!(lookup_fin("RELOAD_COMP"), None);
}

#[test]
fn test_each_mode_one_risk_charge() {
    for m in tid::engine::types::MODES {
        assert!(bad_debt_key(m).is_some() != lookup_fin(m).is_some(), "{}", m);
    }
}

#[test]
fn test_commission_keys() {
    assert_eq!(commission_key("VAR_RID"), "COMM_VAR");
    assert_eq!(commission_key("FIN_FINDO"), "COMM_FIN");
    assert_eq!(commission_key("RELOAD_CC"), "COMM_RPLUS");
    assert_eq!(commission_key("UNKNOWN"), "COMM_VAR");
}

#[test]
fn test_rate_basis_and_targets() {
    assert_eq!(annual_rate_basis("VAR_RID").key(), "BAD_DEBT_RID");
    assert_eq!(annual_rate_basis("RELOAD_COMP").key(), "RATE_COMPASS");
    assert_eq!(annual_rate_basis("FIN_FINDO").key(), "RATE_FINDO");
    assert_eq!(annual_rate_basis("VAR_CC").key(), "BAD_DEBT_CC");
    assert_eq!(target_pb_group("FIN_COMPASS"), PaybackGroup::Fin);
    assert_eq!(target_pb_group("FIN_FINDO"), PaybackGroup::Fin);
    assert_eq!(target_pb_group("RELOAD_FINDO"), PaybackGroup::Var);
    assert_eq!(target_pb_group("RELOAD_COMP"), PaybackGroup::Var);
    assert_eq!(target_pb_group("VAR_RID"), PaybackGroup::Var);
    assert_eq!(target_pb_group("RELOAD_COMP").default_months(), 12);
    assert_eq!(target_pb_group("RELOAD_CC"), PaybackGroup::Var);
    assert_eq!(target_pb_group("FIN_COMPASS").default_months(), 16);
    assert_eq!(target_pb_group("VAR_CC").default_months(), 12);
    assert_eq!(PaybackGroup::Var.key(), "TARGET_PB_VAR");
}

fn keys(list: &[&str]) -> Vec<String> {
    list.iter().map(|s| s.to_string()).collect()
}

#[test]
fn test_net_arpu_key_cluster_a() {
    let known = keys(&["NA_A", "NA_CB"]);
    assert_eq!(net_arpu_key("A", &known), Some("NA_A".to_string()));
    assert_eq!(net_arpu_key(" 1 ", &known), Some("NA_A".to_string()));
    assert_eq!(net_arpu_key("a", &known), Some("NA_A".to_string()));
}

#[test]
fn test_net_arpu_key_cluster_cb() {
    let known = keys(&["NA_CB"]);
    assert_eq!(net_arpu_key("CB", &known), Some("NA_CB".to_string()));
    assert_eq!(net_arpu_key("nt", &known), Some("NA_NT".to_string()));
}

#[test]
fn test_net_arpu_key_unknown_cluster() {
    let known = keys(&["NA_A", "NA_A_PK"]);
    assert_eq!(net_arpu_key("Z", &known), None);
    assert_eq!(net_arpu_key("", &known), None);
    assert_eq!(net_arpu_key("Z_PK", &known), None);
}

#[test]
fn test_net_arpu_key_prepaid_cluster() {
    let with_pk = keys(&["NA_A", "NA_A_PK"]);
    assert_eq!(net_arpu_key("A_PK", &with_pk), Some("NA_A_PK".to_string()));
    assert_eq!(net_arpu_key(" 1_pk ", &with_pk), Some("NA_A_PK".to_string()));
    let without_pk = keys(&["NA_A"]);
    assert_eq!(net_arpu_key("A_PK", &without_pk), Some("NA_A".to_string()));
    assert_eq!(net_arpu_key("CB_PK", &without_pk), Some("NA_CB".to_string()));
}

#[test]
fn test_number_text_plain() {
    assert_eq!(number_text("42"), Some("42".to_string()));
    assert_eq!(number_text("  3.5 "), Some("3.5".to_string()));
}

#[test]
fn test_number_text_italian() {
    assert_eq!(number_text("1.234,56"), Some("1234.56".to_string()));
    assert_eq!(number_text("12,5"), Some("12.5".to_string()));
}

#[test]
fn test_number_text_english_thousands() {
    assert_eq!(number_text("1,234.56"), Some("1234.56".to_string()));
}

#[test]
fn test_number_text_missing() {
    for t in ["", "   ", "nan", "NaN", "None", "(vuoto)", " (vuoto) "] {
        assert_eq!(number_text(t), None, "{:?}", t);
    }
    assert_eq!(number_text("NAN"), Some("NAN".to_string()));
}

#[test]
fn test_number_text_has_no_comma() {
    for t in ["1,2,3", "1.2,3", "1,2.3", ",", "a,b.c,d"] {
        let n = number_text(t).unwrap();
        assert!(!n.contains(','), "{:?} -> {:?}", t, n);
    }
}

#[test]
fn test_tables() {
    assert_eq!(profile_arpu_map().len(), 12);
    assert_eq!(mode_commission_map().len(), 7);
    assert_eq!(bad_debt_mode_map().len(), 5);
    assert_eq!(fin_rate_map().len(), 2);
}

#[test]
fn test_net_arpu_key_of_upper() {
    let known = keys(&["NA_B", "NA_B_PK"]);
    assert_eq!(net_arpu_key_of_upper("B", &known), Some("NA_B".to_string()));
    assert_eq!(net_arpu_key_of_upper("2_PK", &known), Some("NA_B_PK".to_string()));
    // Lower case is not upper-cased here.
    assert_eq!(net_arpu_key_of_upper("b", &known), None);
    // Nor is whitespace trimmed.
    assert_eq!(net_arpu_key_of_upper(" B", &known), None);
}

#[test]
fn test_net_arpu_key_unicode_whitespace() {
    let known = keys(&["NA_C"]);
    // No-break space and ideographic space are whitespace too.
    assert_eq!(net_arpu_key("\u{00A0}c\u{3000}", &known), Some("NA_C".to_string()));
    assert_eq!(net_arpu_key("\tC\n", &known), Some("NA_C".to_string()));
}
