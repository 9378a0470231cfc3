//! Formula text for live-formula workbook exports: each KPI of the export is
//! an Excel formula over the CASHFLOWS and ASSUMPTIONS sheets.

use vstd::prelude::*;
use crate::engine::economics::{
    spec_bad_debt_mode_table, spec_fin_rate_table, spec_rate_basis, spec_rate_key, triple_lookup, RateBasis,
};
use crate::engine::types::table_lookup;
use crate::engine::data::{spec_assumption_cells, 
    all_digits, digits_value, is_ascii_digit, is_ascii_letter, letters_value, non_letters, spec_parse_cell,
    spec_parse_usize, unsigned_digits, cell_row_number,
};
use crate::text::{digit_char, dec, push_char, str_eq, str_starts_with, spec_starts_with, u64_to_decimal, with_number};

verus! {

/// The capital letter at position `d` of the alphabet (`d < 26`).
pub open spec fn letter(d: nat) -> char {
    ((65 + d) as u8) as char
}

/// The Excel column letters of the 0-indexed column `c`: A … Z, AA, AB, ….
pub open spec fn spec_col_letters(c: nat) -> Seq<char>
    decreases c,
{
    if c < 26 {
        seq![letter(c)]
    } else {
        spec_col_letters((c / 26 - 1) as nat).push(letter(c % 26))
    }
}

/// Builds the live-formula text of the exported KPIs.
pub struct FormulaEngine;

impl FormulaEngine {
    /// The Excel column letters of a 0-indexed column number.
    pub fn col_letter(col: usize) -> (r: String)
        ensures
            r@ == spec_col_letters(col as nat),
        decreases col,
    {
        let d = (col % 26) as u8;
        let ch = (65u8 + d) as char;
        if col < 26 {
            let mut s = String::new();
            push_char(&mut s, ch);
            assert(s@ =~= seq![letter(col as nat)]);
            s
        } else {
            let mut s = Self::col_letter(col / 26 - 1);
            push_char(&mut s, ch);
            s
        }
    }

    /// The ASSUMPTIONS cell holding the annual rate of `mode`.
    pub fn wacc_cell(mode: &str) -> (r: String)
        ensures
            r@ == spec_wacc_cell(mode@),
    {
        if str_eq(mode, "VAR_RID") {
            String::from_str("ASSUMPTIONS!B4")
        } else if str_eq(mode, "FIN_COMPASS") || str_eq(mode, "RELOAD_COMP") {
            String::from_str("ASSUMPTIONS!B6")
        } else if str_eq(mode, "FIN_FINDO") || str_eq(mode, "RELOAD_FINDO") {
            String::from_str("ASSUMPTIONS!B7")
        } else {
            String::from_str("ASSUMPTIONS!B5")
        }
    }

    /// The ASSUMPTIONS cell holding the bad-debt rate of `mode`, or `0` for the
    /// financed modes.
    pub fn bad_debt_rate_cell(mode: &str) -> (r: String)
        ensures
            r@ == spec_bad_debt_rate_cell(mode@),
    {
        if str_eq(mode, "VAR_RID") {
            String::from_str("ASSUMPTIONS!B10")
        } else if str_eq(mode, "VAR_CC") || str_eq(mode, "RELOAD_CC") || str_eq(mode, "RELOAD_COMP")
            || str_eq(mode, "RELOAD_FINDO") {
            String::from_str("ASSUMPTIONS!B9")
        } else {
            String::from_str("0")
        }
    }

    /// The internal financing-rate cell of `mode`.
    pub open spec fn spec_fin_internal_rate_cell(mode: Seq<char>) -> Seq<char> {
        if mode == "FIN_COMPASS"@ {
            "ASSUMPTIONS!B12"@
        } else if mode == "FIN_FINDO"@ {
            "ASSUMPTIONS!B14"@
        } else {
            "0"@
        }
    }

    /// The customer financing-rate cell of `mode`.
    pub open spec fn spec_fin_customer_rate_cell(mode: Seq<char>) -> Seq<char> {
        if mode == "FIN_COMPASS"@ {
            "ASSUMPTIONS!B13"@
        } else if mode == "FIN_FINDO"@ {
            "ASSUMPTIONS!B15"@
        } else {
            "0"@
        }
    }

    /// The ASSUMPTIONS cell holding the internal financing rate of `mode`.
    pub fn fin_internal_rate_cell(mode: &str) -> (r: String)
        ensures
            r@ == Self::spec_fin_internal_rate_cell(mode@),
    {
        if str_eq(mode, "FIN_COMPASS") {
            String::from_str("ASSUMPTIONS!B12")
        } else if str_eq(mode, "FIN_FINDO") {
            String::from_str("ASSUMPTIONS!B14")
        } else {
            String::from_str("0")
        }
    }

    /// The ASSUMPTIONS cell holding the customer financing rate of `mode`.
    pub fn fin_customer_rate_cell(mode: &str) -> (r: String)
        ensures
            r@ == Self::spec_fin_customer_rate_cell(mode@),
    {
        if str_eq(mode, "FIN_COMPASS") {
            String::from_str("ASSUMPTIONS!B13")
        } else if str_eq(mode, "FIN_FINDO") {
            String::from_str("ASSUMPTIONS!B15")
        } else {
            String::from_str("0")
        }
    }

    /// NPV formula: the final discounted cumulative cell of the product-mode's
    /// block on the CASHFLOWS sheet, whose first flow is in sheet row
    /// `cashflow_row` (as Excel numbers rows).
    pub fn npv_formula(mode: &str, duration: u32, cashflow_row: u32) -> (r: String)
        requires
            cashflow_row + duration <= u32::MAX,
        ensures
            r@ == "=CASHFLOWS!F"@ + dec((cashflow_row + duration) as nat),
    {
        let final_row = cashflow_row + duration;
        with_number("=CASHFLOWS!F", final_row as u64)
    }

    /// Payback P&L formula: the first month whose cumulative cash flow is not
    /// negative, or -1, over sheet rows `cashflow_row` to
    /// `cashflow_row + duration` (as Excel numbers rows), one per flow.
    pub fn payback_formula(cashflow_row: u32, duration: u32) -> (r: String)
        requires
            cashflow_row + duration <= u32::MAX,
        ensures
            r@ == spec_match_formula('E', cashflow_row as nat, (cashflow_row + duration) as nat),
    {
        Self::match_formula('E', cashflow_row as u64, cashflow_row as u64 + duration as u64)
    }

    /// Payback cash formula: the first month whose discounted cumulative cash
    /// flow is not negative, or -1, over sheet rows `cashflow_row` to
    /// `cashflow_row + duration` (as Excel numbers rows).
    pub fn payback_cash_formula(cashflow_row: u32, duration: u32) -> (r: String)
        requires
            cashflow_row + duration <= u32::MAX,
        ensures
            r@ == spec_match_formula('F', cashflow_row as nat, (cashflow_row + duration) as nat),
    {
        Self::match_formula('F', cashflow_row as u64, cashflow_row as u64 + duration as u64)
    }

    fn match_formula(column: char, start: u64, end: u64) -> (r: String)
        ensures
            r@ == spec_match_formula(column, start as nat, end as nat),
    {
        let mut s = String::from_str("=IFERROR(MATCH(TRUE,CASHFLOWS!");
        push_char(&mut s, column);
        s.append(u64_to_decimal(start).as_str());
        s.append(":");
        push_char(&mut s, column);
        s.append(u64_to_decimal(end).as_str());
        s.append(">=0,0)-1,-1)");
        s
    }

    /// Bad-debt formula: the financed amount (fascia − anticipo) times the
    /// mode's bad-debt rate.
    pub fn bad_debt_formula(mode: &str, fascia_cell: &str, anticipo_cell: &str) -> (r: String)
        ensures
            r@ == "=("@ + fascia_cell@ + "-"@ + anticipo_cell@ + ")*"@ + spec_bad_debt_rate_cell(mode@),
    {
        let rate_cell = Self::bad_debt_rate_cell(mode);
        let mut s = String::from_str("=(");
        s.append(fascia_cell);
        s.append("-");
        s.append(anticipo_cell);
        s.append(")*");
        s.append(rate_cell.as_str());
        s
    }

    /// Financing-cost formula: the sum of the discounted monthly financing costs
    /// over sheet rows `cashflow_row` to `cashflow_row + duration` (as Excel
    /// numbers rows), for a financed mode; `=0` for the others.
    pub fn financing_cost_formula(mode: &str, cashflow_row: u32, duration: u32) -> (r: String)
        requires
            cashflow_row + duration <= u32::MAX,
        ensures
            r@ == (if spec_starts_with(mode@, "FIN"@) {
                "=SUM(CASHFLOWS!I"@ + dec(cashflow_row as nat) + ":I"@ + dec((cashflow_row + duration) as nat) + ")"@
            } else {
                "=0"@
            }),
    {
        if !str_starts_with(mode, "FIN") {
            return String::from_str("=0");
        }
        let mut s = with_number("=SUM(CASHFLOWS!I", cashflow_row as u64);
        s.append(":I");
        s.append(u64_to_decimal(cashflow_row as u64 + duration as u64).as_str());
        s.append(")");
        s
    }

    /// Net-ARPU formula: the cluster's value looked up in the ASSUMPTIONS sheet.
    pub fn net_arpu_formula(cluster_cell: &str) -> (r: String)
        ensures
            r@ == "=VLOOKUP("@ + cluster_cell@ + ",ASSUMPTIONS!A20:B35,2,FALSE)"@,
    {
        let mut s = String::from_str("=VLOOKUP(");
        s.append(cluster_cell);
        s.append(",ASSUMPTIONS!A20:B35,2,FALSE)");
        s
    }
}

/// The annual-rate cell of `mode`.
pub open spec fn spec_wacc_cell(mode: Seq<char>) -> Seq<char> {
    if mode == "VAR_RID"@ {
        "ASSUMPTIONS!B4"@
    } else if mode == "FIN_COMPASS"@ || mode == "RELOAD_COMP"@ {
        "ASSUMPTIONS!B6"@
    } else if mode == "FIN_FINDO"@ || mode == "RELOAD_FINDO"@ {
        "ASSUMPTIONS!B7"@
    } else {
        "ASSUMPTIONS!B5"@
    }
}

/// The bad-debt rate cell of `mode`.
pub open spec fn spec_bad_debt_rate_cell(mode: Seq<char>) -> Seq<char> {
    if mode == "VAR_RID"@ {
        "ASSUMPTIONS!B10"@
    } else if mode == "VAR_CC"@ || mode == "RELOAD_CC"@ || mode == "RELOAD_COMP"@
        || mode == "RELOAD_FINDO"@ {
        "ASSUMPTIONS!B9"@
    } else {
        "0"@
    }
}

/// `=IFERROR(MATCH(TRUE,CASHFLOWS!{c}{start}:{c}{end}>=0,0)-1,-1)`.
pub open spec fn spec_match_formula(column: char, start: nat, end: nat) -> Seq<char> {
    "=IFERROR(MATCH(TRUE,CASHFLOWS!"@ + seq![column] + dec(start) + ":"@ + seq![column] + dec(end)
        + ">=0,0)-1,-1)"@
}


// ── Column letters and cell references ─────────────────────────

proof fn lemma_col_letters(c: nat)
    ensures
        letters_value(spec_col_letters(c)) == c + 1,
        forall|i: int| 0 <= i < spec_col_letters(c).len() ==> is_ascii_letter(#[trigger] spec_col_letters(c)[i]),
    decreases c,
{
    if c < 26 {
        let s = spec_col_letters(c);
        lemma_letter(c);
        assert(s.drop_last() =~= Seq::<char>::empty());
        assert(s.last() == letter(c));
        assert(letters_value(s.drop_last()) == 0);
    } else {
        let q = (c / 26 - 1) as nat;
        lemma_col_letters(q);
        let s = spec_col_letters(c);
        assert(s.drop_last() =~= spec_col_letters(q));
        lemma_letter(c % 26);
        assert(s.last() == letter(c % 26));
        assert(c == (c / 26) * 26 + c % 26) by (nonlinear_arith);
        assert((q + 1) * 26 == (c / 26) * 26) by (nonlinear_arith)
            requires
                q == c / 26 - 1,
                c >= 26,
        ;
        assert forall|i: int| 0 <= i < s.len() implies is_ascii_letter(#[trigger] s[i]) by {
            if i < s.len() - 1 {
                assert(s[i] == spec_col_letters(q)[i]);
            }
        }
    }
}

proof fn lemma_letter(d: nat)
    requires
        d < 26,
    ensures
        is_ascii_letter(letter(d)),
        letter(d) as int == 65 + d,
{
    let b = (65 + d) as u8;
    assert(b as int == 65 + d);
    assert((b as char) as int == b as int);
}

proof fn lemma_letters_value_append_non_letters(a: Seq<char>, b: Seq<char>)
    requires
        forall|i: int| 0 <= i < b.len() ==> !is_ascii_letter(#[trigger] b[i]),
    ensures
        letters_value(a + b) == letters_value(a),
        non_letters(a + b) == non_letters(a) + b,
    decreases b.len(),
{
    if b.len() == 0 {
        assert(a + b =~= a);
    } else {
        let b2 = b.drop_last();
        assert forall|i: int| 0 <= i < b2.len() implies !is_ascii_letter(#[trigger] b2[i]) by {
            assert(b2[i] == b[i]);
        }
        lemma_letters_value_append_non_letters(a, b2);
        assert((a + b).drop_last() =~= a + b2);
        assert((a + b).last() == b.last());
        assert(!is_ascii_letter(b[b.len() - 1]));
        assert(non_letters(a) + b =~= (non_letters(a) + b2).push(b.last()));
    }
}

proof fn lemma_non_letters_of_letters(a: Seq<char>)
    requires
        forall|i: int| 0 <= i < a.len() ==> is_ascii_letter(#[trigger] a[i]),
    ensures
        non_letters(a) == Seq::<char>::empty(),
    decreases a.len(),
{
    if a.len() > 0 {
        let a2 = a.drop_last();
        assert forall|i: int| 0 <= i < a2.len() implies is_ascii_letter(#[trigger] a2[i]) by {
            assert(a2[i] == a[i]);
        }
        lemma_non_letters_of_letters(a2);
        assert(is_ascii_letter(a[a.len() - 1]));
    }
}

proof fn lemma_digit_char(d: nat)
    ensures
        is_ascii_digit(digit_char(d)),
        digit_char(d) as int - 48 == d % 10,
{
}

proof fn lemma_dec(n: nat)
    ensures
        dec(n).len() > 0,
        all_digits(dec(n)),
        digits_value(dec(n)) == n,
    decreases n,
{
    if n < 10 {
        lemma_digit_char(n);
        assert(dec(n).drop_last() =~= Seq::<char>::empty());
        assert(dec(n).last() == digit_char(n));
        assert(digits_value(dec(n).drop_last()) == 0);
    } else {
        lemma_dec(n / 10);
        lemma_digit_char(n % 10);
        let s = dec(n);
        assert(s.drop_last() =~= dec(n / 10));
        assert(s.last() == digit_char(n % 10));
        assert(n == (n / 10) * 10 + n % 10) by (nonlinear_arith);
        assert forall|i: int| 0 <= i < s.len() implies is_ascii_digit(#[trigger] s[i]) by {
            if i < s.len() - 1 {
                assert(s[i] == dec(n / 10)[i]);
            }
        }
    }
}

/// A cell reference written as the column letters of a 0-indexed column
/// followed by a 1-based row number reads back, through `parse_cell`, as that
/// 0-indexed (row, column) pair.
pub proof fn lemma_cell_reference_round_trip(row: nat, col: nat)
    requires
        row + 1 <= usize::MAX,
        col + 1 <= usize::MAX,
    ensures
        spec_parse_cell(spec_col_letters(col) + dec((row + 1) as nat)) == (row as int, col as int),
{
    let a = spec_col_letters(col);
    let b = dec((row + 1) as nat);
    lemma_col_letters(col);
    lemma_dec((row + 1) as nat);
    assert forall|i: int| 0 <= i < b.len() implies !is_ascii_letter(#[trigger] b[i]) by {
        assert(is_ascii_digit(b[i]));
    }
    lemma_letters_value_append_non_letters(a, b);
    lemma_non_letters_of_letters(a);
    assert(non_letters(a + b) =~= b);
    assert(is_ascii_digit(b[0]));
    assert(unsigned_digits(b) == b);
    assert(spec_parse_usize(b) == Some(row + 1));
    assert(cell_row_number(a + b) == row + 1);
}


proof fn lemma_assumption_cells_head(key: Seq<char>)
    ensures
        table_lookup(spec_assumption_cells(), key) == if key == "WACC_CC"@ {
            Some("B5"@)
        } else if key == "WACC_RID"@ {
            Some("B4"@)
        } else if key == "RATE_COMPASS"@ {
            Some("B6"@)
        } else if key == "RATE_FINDO"@ {
            Some("B7"@)
        } else if key == "BAD_DEBT_RID"@ {
            Some("B4"@)
        } else if key == "BAD_DEBT_CC"@ {
            Some("B5"@)
        } else {
            table_lookup(spec_assumption_cells().skip(6), key)
        },
{
    let t0 = spec_assumption_cells();
    let t1 = t0.drop_first();
    let t2 = t1.drop_first();
    let t3 = t2.drop_first();
    let t4 = t3.drop_first();
    let t5 = t4.drop_first();
    assert(t5.drop_first() =~= t0.skip(6));
    assert(t0[0] == ("WACC_CC"@, "B5"@));
    assert(t1[0] == ("WACC_RID"@, "B4"@));
    assert(t2[0] == ("RATE_COMPASS"@, "B6"@));
    assert(t3[0] == ("RATE_FINDO"@, "B7"@));
    assert(t4[0] == ("BAD_DEBT_RID"@, "B4"@));
    assert(t5[0] == ("BAD_DEBT_CC"@, "B5"@));
    assert(table_lookup(t5, key) == if key == "BAD_DEBT_CC"@ { Some("B5"@) } else { table_lookup(t0.skip(6), key) });
    assert(table_lookup(t4, key) == if key == "BAD_DEBT_RID"@ { Some("B4"@) } else { table_lookup(t5, key) });
    assert(table_lookup(t3, key) == if key == "RATE_FINDO"@ { Some("B7"@) } else { table_lookup(t4, key) });
    assert(table_lookup(t2, key) == if key == "RATE_COMPASS"@ { Some("B6"@) } else { table_lookup(t3, key) });
    assert(table_lookup(t1, key) == if key == "WACC_RID"@ { Some("B4"@) } else { table_lookup(t2, key) });
    assert(table_lookup(t0, key) == if key == "WACC_CC"@ { Some("B5"@) } else { table_lookup(t1, key) });
}

proof fn lemma_rid_key_cell()
    ensures
        table_lookup(spec_assumption_cells(), "BAD_DEBT_RID"@) == Some("B4"@),
        "ASSUMPTIONS!B4"@ == "ASSUMPTIONS!"@ + "B4"@,
{
    reveal_strlit("WACC_CC");
    reveal_strlit("WACC_RID");
    reveal_strlit("RATE_COMPASS");
    reveal_strlit("RATE_FINDO");
    reveal_strlit("BAD_DEBT_RID");
    assert("BAD_DEBT_RID"@[0] != "RATE_COMPASS"@[0]);
    lemma_assumption_cells_head("BAD_DEBT_RID"@);
    reveal_strlit("B4");
    reveal_strlit("ASSUMPTIONS!");
    reveal_strlit("ASSUMPTIONS!B4");
    assert("ASSUMPTIONS!B4"@ =~= "ASSUMPTIONS!"@ + "B4"@);
}

proof fn lemma_compass_key_cell()
    ensures
        table_lookup(spec_assumption_cells(), "RATE_COMPASS"@) == Some("B6"@),
        "ASSUMPTIONS!B6"@ == "ASSUMPTIONS!"@ + "B6"@,
{
    reveal_strlit("WACC_CC");
    reveal_strlit("WACC_RID");
    reveal_strlit("RATE_COMPASS");
    assert("RATE_COMPASS"@ != "WACC_CC"@ && "RATE_COMPASS"@ != "WACC_RID"@) by {
        assert("RATE_COMPASS"@.len() == 12 && "WACC_CC"@.len() == 7 && "WACC_RID"@.len() == 8);
    }
    lemma_assumption_cells_head("RATE_COMPASS"@);
    reveal_strlit("B6");
    reveal_strlit("ASSUMPTIONS!");
    reveal_strlit("ASSUMPTIONS!B6");
    assert("ASSUMPTIONS!B6"@ =~= "ASSUMPTIONS!"@ + "B6"@);
}

proof fn lemma_findo_key_cell()
    ensures
        table_lookup(spec_assumption_cells(), "RATE_FINDO"@) == Some("B7"@),
        "ASSUMPTIONS!B7"@ == "ASSUMPTIONS!"@ + "B7"@,
{
    reveal_strlit("WACC_CC");
    reveal_strlit("WACC_RID");
    reveal_strlit("RATE_COMPASS");
    reveal_strlit("RATE_FINDO");
    assert("RATE_FINDO"@ != "WACC_CC"@ && "RATE_FINDO"@ != "WACC_RID"@ && "RATE_FINDO"@ != "RATE_COMPASS"@) by {
        assert("RATE_FINDO"@.len() == 10 && "WACC_CC"@.len() == 7 && "WACC_RID"@.len() == 8 && "RATE_COMPASS"@.len() == 12);
    }
    lemma_assumption_cells_head("RATE_FINDO"@);
    reveal_strlit("B7");
    reveal_strlit("ASSUMPTIONS!");
    reveal_strlit("ASSUMPTIONS!B7");
    assert("ASSUMPTIONS!B7"@ =~= "ASSUMPTIONS!"@ + "B7"@);
}

proof fn lemma_cc_key_cell()
    ensures
        table_lookup(spec_assumption_cells(), "BAD_DEBT_CC"@) == Some("B5"@),
        "ASSUMPTIONS!B5"@ == "ASSUMPTIONS!"@ + "B5"@,
{
    reveal_strlit("WACC_CC");
    reveal_strlit("WACC_RID");
    reveal_strlit("RATE_COMPASS");
    reveal_strlit("RATE_FINDO");
    reveal_strlit("BAD_DEBT_RID");
    reveal_strlit("BAD_DEBT_CC");
    assert("BAD_DEBT_CC"@ != "WACC_CC"@ && "BAD_DEBT_CC"@ != "WACC_RID"@ && "BAD_DEBT_CC"@ != "RATE_COMPASS"@
        && "BAD_DEBT_CC"@ != "RATE_FINDO"@ && "BAD_DEBT_CC"@ != "BAD_DEBT_RID"@) by {
        assert("BAD_DEBT_CC"@.len() == 11 && "WACC_CC"@.len() == 7 && "WACC_RID"@.len() == 8
            && "RATE_COMPASS"@.len() == 12 && "RATE_FINDO"@.len() == 10 && "BAD_DEBT_RID"@.len() == 12);
    }
    lemma_assumption_cells_head("BAD_DEBT_CC"@);
    reveal_strlit("B5");
    reveal_strlit("ASSUMPTIONS!");
    reveal_strlit("ASSUMPTIONS!B5");
    assert("ASSUMPTIONS!B5"@ =~= "ASSUMPTIONS!"@ + "B5"@);
}

/// The export charges bad debt exactly where the engine does: a mode gets the
/// rate cell `0` exactly when the engine's bad-debt table has no key for it;
/// the modes charged at the card rate (`BAD_DEBT_CC`) read ASSUMPTIONS!B9 and
/// the direct-debit mode (`BAD_DEBT_RID`) reads ASSUMPTIONS!B10.
pub proof fn lemma_bad_debt_cell_follows_table(mode: Seq<char>)
    ensures
        (spec_bad_debt_rate_cell(mode) == "0"@) <==> (table_lookup(spec_bad_debt_mode_table(), mode) is None),
        table_lookup(spec_bad_debt_mode_table(), mode) == Some("BAD_DEBT_CC"@)
            ==> spec_bad_debt_rate_cell(mode) == "ASSUMPTIONS!B9"@,
        table_lookup(spec_bad_debt_mode_table(), mode) == Some("BAD_DEBT_RID"@)
            ==> spec_bad_debt_rate_cell(mode) == "ASSUMPTIONS!B10"@,
{
    reveal_strlit("VAR_CC");
    reveal_strlit("VAR_RID");
    reveal_strlit("RELOAD_CC");
    reveal_strlit("RELOAD_COMP");
    reveal_strlit("RELOAD_FINDO");
    reveal_strlit("BAD_DEBT_CC");
    reveal_strlit("BAD_DEBT_RID");
    reveal_strlit("0");
    reveal_strlit("ASSUMPTIONS!B9");
    reveal_strlit("ASSUMPTIONS!B10");
    assert("BAD_DEBT_CC"@[9] != "BAD_DEBT_RID"@[9]);
    let m = mode;
    let bd = spec_bad_debt_mode_table();
    let bd1 = bd.drop_first();
    let bd2 = bd1.drop_first();
    let bd3 = bd2.drop_first();
    let bd4 = bd3.drop_first();
    let bd5 = bd4.drop_first();
    assert(bd5.len() == 0);
    assert(bd[0] == ("VAR_RID"@, "BAD_DEBT_RID"@) && bd1[0] == ("VAR_CC"@, "BAD_DEBT_CC"@)
        && bd2[0] == ("RELOAD_CC"@, "BAD_DEBT_CC"@) && bd3[0] == ("RELOAD_COMP"@, "BAD_DEBT_CC"@)
        && bd4[0] == ("RELOAD_FINDO"@, "BAD_DEBT_CC"@));
    let cc = m == "VAR_CC"@ || m == "RELOAD_CC"@ || m == "RELOAD_COMP"@ || m == "RELOAD_FINDO"@;
    assert(table_lookup(bd5, m) is None);
    assert(table_lookup(bd4, m) == (if m == "RELOAD_FINDO"@ { Some("BAD_DEBT_CC"@) } else { None::<Seq<char>> }));
    assert(table_lookup(bd3, m) == (if m == "RELOAD_COMP"@ || m == "RELOAD_FINDO"@ { Some("BAD_DEBT_CC"@) } else { None::<Seq<char>> }));
    assert(table_lookup(bd2, m) == (if m == "RELOAD_CC"@ || m == "RELOAD_COMP"@ || m == "RELOAD_FINDO"@ { Some("BAD_DEBT_CC"@) } else { None::<Seq<char>> }));
    assert(table_lookup(bd1, m) == (if cc { Some("BAD_DEBT_CC"@) } else { None::<Seq<char>> }));
    assert(table_lookup(bd, m) == (if m == "VAR_RID"@ { Some("BAD_DEBT_RID"@) } else if cc { Some("BAD_DEBT_CC"@) } else { None::<Seq<char>> }));
    assert("ASSUMPTIONS!B9"@.len() != "0"@.len());
    assert("ASSUMPTIONS!B10"@.len() != "0"@.len());
}

/// The export charges a financing spread exactly where the engine does: a
/// mode has the rate cells `0` exactly when the engine's financing table has
/// no rates for it, and a financed mode reads its internal and its customer
/// rate from two different cells.
pub proof fn lemma_fin_cells_follow_table(mode: Seq<char>)
    ensures
        (FormulaEngine::spec_fin_internal_rate_cell(mode) == "0"@)
            <==> (triple_lookup(spec_fin_rate_table(), mode) is None),
        (FormulaEngine::spec_fin_customer_rate_cell(mode) == "0"@)
            <==> (triple_lookup(spec_fin_rate_table(), mode) is None),
        triple_lookup(spec_fin_rate_table(), mode) is Some
            ==> FormulaEngine::spec_fin_internal_rate_cell(mode) != FormulaEngine::spec_fin_customer_rate_cell(mode),
{
    reveal_strlit("FIN_COMPASS");
    reveal_strlit("FIN_FINDO");
    reveal_strlit("0");
    reveal_strlit("ASSUMPTIONS!B12");
    reveal_strlit("ASSUMPTIONS!B13");
    reveal_strlit("ASSUMPTIONS!B14");
    reveal_strlit("ASSUMPTIONS!B15");
    let t = spec_fin_rate_table();
    let t1 = t.drop_first();
    let t2 = t1.drop_first();
    assert(t2.len() == 0);
    assert(t[0].0 == "FIN_COMPASS"@ && t1[0].0 == "FIN_FINDO"@);
    assert(triple_lookup(t2, mode) is None);
    assert(triple_lookup(t1, mode) is Some <==> mode == "FIN_FINDO"@);
    assert(triple_lookup(t, mode) is Some <==> (mode == "FIN_COMPASS"@ || mode == "FIN_FINDO"@));
    assert("ASSUMPTIONS!B12"@.len() != "0"@.len());
    assert("ASSUMPTIONS!B13"@.len() != "0"@.len());
    assert("ASSUMPTIONS!B14"@.len() != "0"@.len());
    assert("ASSUMPTIONS!B15"@.len() != "0"@.len());
    assert("ASSUMPTIONS!B12"@[14] != "ASSUMPTIONS!B13"@[14]);
    assert("ASSUMPTIONS!B14"@[14] != "ASSUMPTIONS!B15"@[14]);
}

/// The rate cell that the export's formulas use for a mode is the ASSUMPTIONS
/// cell of the very assumption that the engine discounts that mode with.
pub proof fn lemma_rate_cell_matches_assumption(mode: Seq<char>)
    ensures
        table_lookup(spec_assumption_cells(), spec_rate_key(spec_rate_basis(mode))) matches Some(cell)
            && spec_wacc_cell(mode) == "ASSUMPTIONS!"@ + cell,
{
    match spec_rate_basis(mode) {
        RateBasis::Rid => lemma_rid_key_cell(),
        RateBasis::Compass => lemma_compass_key_cell(),
        RateBasis::Findo => lemma_findo_key_cell(),
        RateBasis::Cc => lemma_cc_key_cell(),
    }
}

} // verus!
