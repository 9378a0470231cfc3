//! Row layout and formula text of the CASHFLOWS, KPI and CASHFLOW_SUMMARY
//! sheets of the economics export. Functions take the 0-indexed rows of the
//! sheet writer; the formula text quotes the A1 row number, one more.

use vstd::prelude::*;
use crate::engine::economics::{
    spec_monthly_installments, spec_normalize_duration, spec_smart_installments,
};
use crate::engine::formula::{FormulaEngine, spec_bad_debt_rate_cell, spec_match_formula};
use crate::text::{dec, spec_starts_with, u64_to_decimal, with_number};

verus! {

/// Rows of the CASHFLOWS sheet taken by a block of a given contract duration:
/// the upfront flow and one row per month.
pub open spec fn block_rows(d: u32) -> nat {
    spec_normalize_duration(d) as nat + 1
}

/// The first row of block `i` when blocks of durations `ds` are laid out one
/// after the other below the header row.
pub open spec fn block_start(ds: Seq<u32>, i: int) -> nat
    decreases i,
{
    if i <= 0 {
        1
    } else {
        block_start(ds, i - 1) + block_rows(ds[i - 1])
    }
}

/// Writes the economics workbook; the writing itself lives with the program,
/// this type carries the sheet formulas.
pub struct SheetFormulas;

proof fn lemma_block_start_grows(ds: Seq<u32>, i: int, j: int)
    requires
        0 <= i <= j,
    ensures
        block_start(ds, i) <= block_start(ds, j),
    decreases j - i,
{
    if i < j {
        lemma_block_start_grows(ds, i, j - 1);
    }
}

impl SheetFormulas {
    /// The first CASHFLOWS row of each block, for blocks of the given contract
    /// durations laid out in order below the header row.
    pub fn block_starts(durations: &[u32]) -> (r: Vec<u32>)
        requires
            block_start(durations@, durations@.len() as int) <= u32::MAX,
        ensures
            r@.len() == durations@.len(),
            forall|i: int| 0 <= i < r@.len() ==> #[trigger] r@[i] == block_start(durations@, i),
    {
        let mut r: Vec<u32> = Vec::new();
        let mut row: u32 = 1;
        let mut i: usize = 0;
        while i < durations.len()
            invariant
                i <= durations@.len(),
                block_start(durations@, durations@.len() as int) <= u32::MAX,
                row == block_start(durations@, i as int),
                r@.len() == i,
                forall|j: int| 0 <= j < i ==> #[trigger] r@[j] == block_start(durations@, j),
            decreases durations@.len() - i,
        {
            r.push(row);
            proof {
                lemma_block_start_grows(durations@, i + 1, durations@.len() as int);
            }
            let d = crate::engine::economics::normalize_duration(durations[i]);
            row = row + d + 1;
            i = i + 1;
        }
        r
    }

    /// The key under which a product-mode's block is remembered: `id:mode`.
    pub fn block_key(product_id: &str, mode: &str) -> (r: String)
        ensures
            r@ == product_id@ + ":"@ + mode@,
    {
        let mut s = String::from_str(product_id);
        s.append(":");
        s.append(mode);
        s
    }

    /// Cumulative cash flow of a month after the first: previous cumulative
    /// plus this month's flow.
    pub fn cumulative_formula(row: u32) -> (r: String)
        requires
            row >= 1,
        ensures
            r@ == "=E"@ + dec(row as nat) + "+D"@ + dec((row + 1) as nat),
    {
        let mut s = with_number("=E", row as u64);
        s.append("+D");
        s.append(u64_to_decimal(row as u64 + 1).as_str());
        s
    }

    /// Discounted cumulative cash flow of month `month`: this month's flow
    /// discounted at the mode's monthly rate, added to the previous discounted
    /// cumulative after the first month.
    pub fn discounted_cumulative_formula(rate_ref: &str, row: u32, month: u32) -> (r: String)
        requires
            month > 0 ==> row >= 1,
        ensures
            r@ == (if month == 0 { "="@ } else { "=F"@ + dec(row as nat) + "+"@ })
                + "D"@ + dec((row + 1) as nat) + "/((1+("@ + rate_ref@ + ")^(1/12)-1)^"@ + dec(month as nat) + ")"@,
    {
        let mut s = if month == 0 {
            String::from_str("=")
        } else {
            let mut p = with_number("=F", row as u64);
            p.append("+");
            p
        };
        s.append("D");
        s.append(u64_to_decimal(row as u64 + 1).as_str());
        s.append("/((1+(");
        s.append(rate_ref);
        s.append(")^(1/12)-1)^");
        s.append(u64_to_decimal(month as u64).as_str());
        s.append(")");
        s
    }

    /// Outstanding financed amount in the first month: fascia minus anticipo,
    /// both given as the text of their values.
    pub fn opening_balance_formula(fascia: &str, anticipo: &str) -> (r: String)
        ensures
            r@ == "=("@ + fascia@ + "-"@ + anticipo@ + ")"@,
    {
        let mut s = String::from_str("=(");
        s.append(fascia);
        s.append("-");
        s.append(anticipo);
        s.append(")");
        s
    }

    /// Outstanding financed amount after a month: the previous balance less one
    /// handset instalment (given as the text of its value), never below zero.
    pub fn remaining_balance_formula(row: u32, rata_hs: &str) -> (r: String)
        requires
            row >= 1,
        ensures
            r@ == "=MAX(G"@ + dec(row as nat) + "-"@ + rata_hs@ + ",0)"@,
    {
        let mut s = with_number("=MAX(G", row as u64);
        s.append("-");
        s.append(rata_hs);
        s.append(",0)");
        s
    }

    /// Financing cost of a month: the outstanding balance times the spread
    /// between the internal and the customer rate, over twelve.
    pub fn monthly_financing_cost_formula(mode: &str, row: u32) -> (r: String)
        ensures
            r@ == "=G"@ + dec((row + 1) as nat) + "*("@ + FormulaEngine::spec_fin_internal_rate_cell(mode@) + "-"@
                + FormulaEngine::spec_fin_customer_rate_cell(mode@) + ")/12"@,
    {
        let int_rate = FormulaEngine::fin_internal_rate_cell(mode);
        let cust_rate = FormulaEngine::fin_customer_rate_cell(mode);
        let mut s = with_number("=G", row as u64 + 1);
        s.append("*(");
        s.append(int_rate.as_str());
        s.append("-");
        s.append(cust_rate.as_str());
        s.append(")/12");
        s
    }

    /// Financing cost of month `month`, discounted one month further than the
    /// cash flow of that month.
    pub fn discounted_financing_cost_formula(rate_ref: &str, row: u32, month: u32) -> (r: String)
        requires
            month < u32::MAX,
        ensures
            r@ == "=H"@ + dec((row + 1) as nat) + "/((1+("@ + rate_ref@ + ")^(1/12)-1)^"@ + dec((month + 1) as nat) + ")"@,
    {
        let mut s = with_number("=H", row as u64 + 1);
        s.append("/((1+(");
        s.append(rate_ref);
        s.append(")^(1/12)-1)^");
        s.append(u64_to_decimal((month + 1) as u64).as_str());
        s.append(")");
        s
    }

    /// A reference to cell `column``row` of the CASHFLOWS sheet, as a formula.
    pub fn cashflows_cell_formula(column: &str, row: u32) -> (r: String)
        ensures
            r@ == "=CASHFLOWS!"@ + column@ + dec((row + 1) as nat),
    {
        let mut s = String::from_str("=CASHFLOWS!");
        s.append(column);
        s.append(u64_to_decimal(row as u64 + 1).as_str());
        s
    }

    /// A reference to cell `column``row` of the CASHFLOWS sheet.
    pub fn cashflows_cell(column: &str, row: u32) -> (r: String)
        ensures
            r@ == "CASHFLOWS!"@ + column@ + dec((row + 1) as nat),
    {
        let mut s = String::from_str("CASHFLOWS!");
        s.append(column);
        s.append(u64_to_decimal(row as u64 + 1).as_str());
        s
    }

    /// Total of the cash flows of a block that starts at row `start` and ends
    /// `duration` rows further down.
    pub fn block_total_formula(start: u32, duration: u32) -> (r: String)
        requires
            start + duration <= u32::MAX,
        ensures
            r@ == "=SUM(CASHFLOWS!D"@ + dec((start + 1) as nat) + ":D"@ + dec((start + duration + 1) as nat) + ")"@,
    {
        let mut s = with_number("=SUM(CASHFLOWS!D", start as u64 + 1);
        s.append(":D");
        s.append(u64_to_decimal(start as u64 + duration as u64 + 1).as_str());
        s.append(")");
        s
    }

    /// The KPI sheet's helper cell holding the cluster of row `row`.
    pub fn cluster_helper_cell(row: u32) -> (r: String)
        ensures
            r@ == "K"@ + dec((row + 1) as nat),
    {
        with_number("K", row as u64 + 1)
    }
}


/// The live formulas of one KPI-sheet row of a product-mode.
#[derive(Clone, Debug, PartialEq, Eq)]
pub struct KpiRowFormulas {
    pub npv: String,
    pub payback_pl: String,
    pub payback_cash: String,
    pub bad_debt: String,
    pub financing_cost: String,
    pub net_arpu: String,
}

/// The formulas of one CASHFLOW_SUMMARY row of a product-mode.
#[derive(Clone, Debug, PartialEq, Eq)]
pub struct SummaryRowFormulas {
    pub first_flow: String,
    pub total: String,
    pub npv: String,
    pub final_cumulative: String,
}

impl SheetFormulas {
    /// The KPI formulas of KPI-sheet row `row` for a product-mode whose
    /// CASHFLOWS block starts at row `start` and holds the schedule of a
    /// `duration`-month contract: the NPV is the block's last discounted
    /// cumulative, both paybacks and the financing cost range over the whole
    /// block, the bad debt is charged on `fascia` minus `anticipo` (the text of
    /// the mode's fascia and anticipo), and the net ARPU looks up the cluster
    /// held in this row's helper cell.
    pub fn kpi_row(mode: &str, start: u32, duration: u32, row: u32, fascia: &str, anticipo: &str) -> (r: KpiRowFormulas)
        requires
            start + spec_normalize_duration(duration) + 1 <= u32::MAX,
        ensures
            ({
                let first = (start + 1) as nat;
                let last = (start + spec_normalize_duration(duration) + 1) as nat;
                &&& r.npv@ == "=CASHFLOWS!F"@ + dec(last)
                &&& r.payback_pl@ == spec_match_formula('E', first, last)
                &&& r.payback_cash@ == spec_match_formula('F', first, last)
                &&& r.bad_debt@ == "=("@ + fascia@ + "-"@ + anticipo@ + ")*"@ + spec_bad_debt_rate_cell(mode@)
                &&& r.financing_cost@ == (if spec_starts_with(mode@, "FIN"@) {
                    "=SUM(CASHFLOWS!I"@ + dec(first) + ":I"@ + dec(last) + ")"@
                } else {
                    "=0"@
                })
                &&& r.net_arpu@ == "=VLOOKUP("@ + "K"@ + dec((row + 1) as nat) + ",ASSUMPTIONS!A20:B35,2,FALSE)"@
            }),
    {
        let d = crate::engine::economics::normalize_duration(duration);
        let cluster_cell = Self::cluster_helper_cell(row);
        // The formula builders take rows as Excel numbers them.
        let first = start + 1;
        KpiRowFormulas {
            npv: FormulaEngine::npv_formula(mode, d, first),
            payback_pl: FormulaEngine::payback_formula(first, d),
            payback_cash: FormulaEngine::payback_cash_formula(first, d),
            bad_debt: FormulaEngine::bad_debt_formula(mode, fascia, anticipo),
            financing_cost: FormulaEngine::financing_cost_formula(mode, first, d),
            net_arpu: FormulaEngine::net_arpu_formula(cluster_cell.as_str()),
        }
    }

    /// The CASHFLOW_SUMMARY formulas of a product-mode whose CASHFLOWS block
    /// starts at row `start` and holds the schedule of a `duration`-month
    /// contract: its first flow, the total of its flows, and its last
    /// discounted and undiscounted cumulative flows.
    pub fn summary_row(start: u32, duration: u32) -> (r: SummaryRowFormulas)
        requires
            start + spec_normalize_duration(duration) <= u32::MAX,
        ensures
            ({
                let first = (start + 1) as nat;
                let last = (start + spec_normalize_duration(duration) + 1) as nat;
                &&& r.first_flow@ == "=CASHFLOWS!D"@ + dec(first)
                &&& r.total@ == "=SUM(CASHFLOWS!D"@ + dec(first) + ":D"@ + dec(last) + ")"@
                &&& r.npv@ == "=CASHFLOWS!F"@ + dec(last)
                &&& r.final_cumulative@ == "=CASHFLOWS!E"@ + dec(last)
            }),
    {
        let d = crate::engine::economics::normalize_duration(duration);
        let end = start + d;
        SummaryRowFormulas {
            first_flow: with_number("=CASHFLOWS!D", start as u64 + 1),
            total: Self::block_total_formula(start, d),
            npv: with_number("=CASHFLOWS!F", end as u64 + 1),
            final_cumulative: with_number("=CASHFLOWS!E", end as u64 + 1),
        }
    }
}

/// Consecutive blocks of the CASHFLOWS sheet neither overlap nor leave gaps:
/// each block spans exactly the flows of its product-mode's schedule (the
/// upfront flow, the handset and smart instalments, the last instalment).
pub proof fn lemma_blocks_hold_schedules(ds: Seq<u32>, i: int)
    requires
        0 <= i < ds.len(),
    ensures
        block_start(ds, i + 1) - block_start(ds, i)
            == spec_monthly_installments(ds[i]) + spec_smart_installments(ds[i]) + 2,
        block_start(ds, i) >= 1,
{
    lemma_block_start_grows(ds, 0, i);
}

} // verus!
