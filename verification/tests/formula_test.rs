use tid::engine::formula::FormulaEngine;

#[test]
fn test_col_letter_single() {
    assert_eq!(FormulaEngine::col_letter(0), "A");
    assert_eq!(FormulaEngine::col_letter(1), "B");
    assert_eq!(FormulaEngine::col_letter(25), "Z");
}

#[test]
fn test_col_letter_double() {
    assert_eq!(FormulaEngine::col_letter(26), "AA");
    assert_eq!(FormulaEngine::col_letter(27), "AB");
    assert_eq!(FormulaEngine::col_letter(51), "AZ");
    assert_eq!(FormulaEngine::col_letter(52), "BA");
    assert_eq!(FormulaEngine::col_letter(701), "ZZ");
    assert_eq!(FormulaEngine::col_letter(702), "AAA");
}

#[test]
fn test_col_letter_round_trip_through_parse_cell() {
    for col in [0usize, 1, 25, 26, 51, 52, 200, 701, 702, 16383] {
        let reference = format!("{}{}", FormulaEngine::col_letter(col), 7);
        assert_eq!(tid::engine::data::parse_cell(&reference), (6, col));
    }
}

#[test]
fn test_wacc_cell_per_mode() {
    assert_eq!(FormulaEngine::wacc_cell("VAR_RID"), "ASSUMPTIONS!B4");
    assert_eq!(FormulaEngine::wacc_cell("FIN_COMPASS"), "ASSUMPTIONS!B6");
    assert_eq!(FormulaEngine::wacc_cell("RELOAD_COMP"), "ASSUMPTIONS!B6");
    assert_eq!(FormulaEngine::wacc_cell("FIN_FINDO"), "ASSUMPTIONS!B7");
    assert_eq!(FormulaEngine::wacc_cell("RELOAD_FINDO"), "ASSUMPTIONS!B7");
    assert_eq!(FormulaEngine::wacc_cell("VAR_CC"), "ASSUMPTIONS!B5");
    assert_eq!(FormulaEngine::wacc_cell("RELOAD_CC"), "ASSUMPTIONS!B5");
    assert_eq!(FormulaEngine::wacc_cell("anything"), "ASSUMPTIONS!B5");
}

#[test]
fn test_bad_debt_rate_cell_per_mode() {
    assert_eq!(FormulaEngine::bad_debt_rate_cell("VAR_RID"), "ASSUMPTIONS!B10");
    assert_eq!(FormulaEngine::bad_debt_rate_cell("VAR_CC"), "ASSUMPTIONS!B9");
    assert_eq!(FormulaEngine::bad_debt_rate_cell("RELOAD_FINDO"), "ASSUMPTIONS!B9");
    assert_eq!(FormulaEngine::bad_debt_rate_cell("FIN_COMPASS"), "0");
}

#[test]
fn test_fin_rate_cells() {
    assert_eq!(FormulaEngine::fin_internal_rate_cell("FIN_COMPASS"), "ASSUMPTIONS!B12");
    assert_eq!(FormulaEngine::fin_internal_rate_cell("FIN_FINDO"), "ASSUMPTIONS!B14");
    assert_eq!(FormulaEngine::fin_internal_rate_cell("VAR_CC"), "0");
    assert_eq!(FormulaEngine::fin_customer_rate_cell("FIN_COMPASS"), "ASSUMPTIONS!B13");
    assert_eq!(FormulaEngine::fin_customer_rate_cell("FIN_FINDO"), "ASSUMPTIONS!B15");
    assert_eq!(FormulaEngine::fin_customer_rate_cell("RELOAD_COMP"), "0");
}

#[test]
fn test_npv_formula() {
    assert_eq!(FormulaEngine::npv_formula("VAR_CC", 30, 1), "=CASHFLOWS!F31");
    assert_eq!(FormulaEngine::npv_formula("FIN_FINDO", 24, 100), "=CASHFLOWS!F124");
}

#[test]
fn test_payback_formulas() {
    assert_eq!(
        FormulaEngine::payback_formula(1, 30),
        "=IFERROR(MATCH(TRUE,CASHFLOWS!E1:E31>=0,0)-1,-1)"
    );
    assert_eq!(
        FormulaEngine::payback_cash_formula(32, 24),
        "=IFERROR(MATCH(TRUE,CASHFLOWS!F32:F56>=0,0)-1,-1)"
    );
}

#[test]
fn test_bad_debt_formula() {
    assert_eq!(
        FormulaEngine::bad_debt_formula("VAR_RID", "600", "100"),
        "=(600-100)*ASSUMPTIONS!B10"
    );
    assert_eq!(FormulaEngine::bad_debt_formula("FIN_COMPASS", "A1", "B1"), "=(A1-B1)*0");
}

#[test]
fn test_financing_cost_formula() {
    assert_eq!(FormulaEngine::financing_cost_formula("VAR_CC", 1, 30), "=0");
    assert_eq!(FormulaEngine::financing_cost_formula("RELOAD_COMP", 1, 30), "=0");
    assert_eq!(
        FormulaEngine::financing_cost_formula("FIN_COMPASS", 1, 30),
        "=SUM(CASHFLOWS!I1:I31)"
    );
}

#[test]
fn test_net_arpu_formula() {
    assert_eq!(
        FormulaEngine::net_arpu_formula("K5"),
        "=VLOOKUP(K5,ASSUMPTIONS!A20:B35,2,FALSE)"
    );
}

#[test]
fn test_rate_cell_is_the_discount_assumption_cell() {
    let cells = tid::engine::data::DataManager::assumption_cells();
    for mode in tid::engine::types::MODES.iter().copied().chain(["OTHER"]) {
        let key = tid::engine::economics::annual_rate_basis(mode).key();
        let cell = tid::engine::types::lookup_str(&cells, key).unwrap();
        assert_eq!(FormulaEngine::wacc_cell(mode), format!("ASSUMPTIONS!{}", cell), "{}", mode);
    }
}

#[test]
fn test_formulas_quote_rows_as_given() {
    assert_eq!(
        FormulaEngine::payback_formula(2, 30),
        "=IFERROR(MATCH(TRUE,CASHFLOWS!E2:E32>=0,0)-1,-1)"
    );
    assert_eq!(FormulaEngine::financing_cost_formula("VAR_CC", 2, 30), "=0");
    assert_eq!(FormulaEngine::financing_cost_formula("RELOAD_COMP", 2, 30), "=0");
    assert_eq!(FormulaEngine::financing_cost_formula("FIN_COMPASS", 2, 30), "=SUM(CASHFLOWS!I2:I32)");
    assert_eq!(FormulaEngine::financing_cost_formula("FIN_FINDO", 5, 24), "=SUM(CASHFLOWS!I5:I29)");
}
