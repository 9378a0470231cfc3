use tid::export::writer::{KpiRowFormulas, SheetFormulas, SummaryRowFormulas};

#[test]
fn test_block_starts() {
    assert_eq!(SheetFormulas::block_starts(&[30, 24, 36, 7]), vec![1, 32, 57, 94]);
    assert_eq!(SheetFormulas::block_starts(&[]), Vec::<u32>::new());
}

#[test]
fn test_block_key() {
    assert_eq!(SheetFormulas::block_key("P1", "VAR_CC"), "P1:VAR_CC");
}

#[test]
fn test_cashflow_column_formulas() {
    assert_eq!(SheetFormulas::cumulative_formula(5), "=E5+D6");
    assert_eq!(
        SheetFormulas::discounted_cumulative_formula("ASSUMPTIONS!B5", 1, 0),
        "=D2/((1+(ASSUMPTIONS!B5)^(1/12)-1)^0)"
    );
    assert_eq!(
        SheetFormulas::discounted_cumulative_formula("ASSUMPTIONS!B5", 3, 2),
        "=F3+D4/((1+(ASSUMPTIONS!B5)^(1/12)-1)^2)"
    );
}

#[test]
fn test_financing_column_formulas() {
    assert_eq!(SheetFormulas::opening_balance_formula("600", "100"), "=(600-100)");
    assert_eq!(SheetFormulas::remaining_balance_formula(2, "16.67"), "=MAX(G2-16.67,0)");
    assert_eq!(
        SheetFormulas::monthly_financing_cost_formula("FIN_COMPASS", 2),
        "=G3*(ASSUMPTIONS!B12-ASSUMPTIONS!B13)/12"
    );
    assert_eq!(
        SheetFormulas::discounted_financing_cost_formula("ASSUMPTIONS!B6", 2, 1),
        "=H3/((1+(ASSUMPTIONS!B6)^(1/12)-1)^2)"
    );
}

#[test]
fn test_summary_formulas() {
    assert_eq!(SheetFormulas::cashflows_cell_formula("D", 1), "=CASHFLOWS!D2");
    assert_eq!(SheetFormulas::cashflows_cell("D", 32), "CASHFLOWS!D33");
    assert_eq!(SheetFormulas::block_total_formula(1, 30), "=SUM(CASHFLOWS!D2:D32)");
    assert_eq!(SheetFormulas::cluster_helper_cell(7), "K8");
}

#[test]
fn test_running_sum_quotes_rows_below_the_header() {
    // The first block starts at writer row 1 (A1 row 2); its second flow sits
    // at writer row 2 and adds to the cumulative of A1 row 2, not the header.
    assert_eq!(SheetFormulas::cumulative_formula(2), "=E2+D3");
    assert_eq!(SheetFormulas::cumulative_formula(31), "=E31+D32");
}

#[test]
fn test_kpi_row_spans_the_block() {
    let f = SheetFormulas::kpi_row("VAR_RID", 1, 30, 1, "600", "100");
    assert_eq!(
        f,
        KpiRowFormulas {
            npv: "=CASHFLOWS!F32".to_string(),
            payback_pl: "=IFERROR(MATCH(TRUE,CASHFLOWS!E2:E32>=0,0)-1,-1)".to_string(),
            payback_cash: "=IFERROR(MATCH(TRUE,CASHFLOWS!F2:F32>=0,0)-1,-1)".to_string(),
            bad_debt: "=(600-100)*ASSUMPTIONS!B10".to_string(),
            financing_cost: "=0".to_string(),
            net_arpu: "=VLOOKUP(K2,ASSUMPTIONS!A20:B35,2,FALSE)".to_string(),
        }
    );
    let g = SheetFormulas::kpi_row("FIN_COMPASS", 32, 24, 2, "480", "80");
    assert_eq!(g.npv, "=CASHFLOWS!F57");
    assert_eq!(g.financing_cost, "=SUM(CASHFLOWS!I33:I57)");
    assert_eq!(g.bad_debt, "=(480-80)*0");
    // A duration outside 24/30/36 is laid out as 30 months.
    assert_eq!(SheetFormulas::kpi_row("VAR_CC", 1, 7, 1, "0", "0").npv, "=CASHFLOWS!F32");
}

#[test]
fn test_summary_row() {
    assert_eq!(
        SheetFormulas::summary_row(1, 30),
        SummaryRowFormulas {
            first_flow: "=CASHFLOWS!D2".to_string(),
            total: "=SUM(CASHFLOWS!D2:D32)".to_string(),
            npv: "=CASHFLOWS!F32".to_string(),
            final_cumulative: "=CASHFLOWS!E32".to_string(),
        }
    );
    assert_eq!(SheetFormulas::summary_row(32, 24).total, "=SUM(CASHFLOWS!D33:D57)");
}
