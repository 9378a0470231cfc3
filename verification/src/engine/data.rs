//! Workbook ingestion rules that do not touch the workbook itself: where each
//! assumption sits on the ASSUMPTIONS sheet and how an A1 cell reference
//! turns into 0-indexed coordinates.

use vstd::prelude::*;
use crate::engine::types::pairs_view;
use crate::text::chars_of;

verus! {

/// An ASCII letter, as `char::is_ascii_alphabetic` tests it.
pub open spec fn is_ascii_letter(c: char) -> bool {
    ('A' <= c && c <= 'Z') || ('a' <= c && c <= 'z')
}

/// An ASCII decimal digit.
pub open spec fn is_ascii_digit(c: char) -> bool {
    '0' <= c && c <= '9'
}

/// The column number spelled by the letters of `s` (A = 1, …, Z = 26,
/// AA = 27, …); other characters are skipped. Each letter counts by its
/// distance from `A` plus one.
pub open spec fn letters_value(s: Seq<char>) -> int
    decreases s.len(),
{
    if s.len() == 0 {
        0
    } else if is_ascii_letter(s.last()) {
        letters_value(s.drop_last()) * 26 + (s.last() as int - 65 + 1)
    } else {
        letters_value(s.drop_last())
    }
}

/// The characters of `s` that are not ASCII letters, in order.
pub open spec fn non_letters(s: Seq<char>) -> Seq<char>
    decreases s.len(),
{
    if s.len() == 0 {
        seq![]
    } else if is_ascii_letter(s.last()) {
        non_letters(s.drop_last())
    } else {
        non_letters(s.drop_last()).push(s.last())
    }
}

/// The value of a sequence of decimal digits.
pub open spec fn digits_value(s: Seq<char>) -> nat
    decreases s.len(),
{
    if s.len() == 0 {
        0
    } else {
        digits_value(s.drop_last()) * 10 + (s.last() as int - 48) as nat
    }
}

/// `s` without a leading `+`.
pub open spec fn unsigned_digits(s: Seq<char>) -> Seq<char> {
    if s.len() > 0 && s[0] == '+' { s.drop_first() } else { s }
}

/// Every character of `d` is a decimal digit.
pub open spec fn all_digits(d: Seq<char>) -> bool {
    forall|i: int| 0 <= i < d.len() ==> is_ascii_digit(#[trigger] d[i])
}

/// The unsigned integer that `str::parse::<usize>` reads from `s`: an optional
/// `+` followed by at least one digit and nothing else, whose value fits.
pub open spec fn spec_parse_usize(s: Seq<char>) -> Option<nat> {
    let d = unsigned_digits(s);
    if d.len() > 0 && all_digits(d) && digits_value(d) <= usize::MAX {
        Some(digits_value(d))
    } else {
        None
    }
}

/// The row number of a cell reference: its non-letter characters read as a
/// number, 1 when they do not form one.
pub open spec fn cell_row_number(s: Seq<char>) -> nat {
    match spec_parse_usize(non_letters(s)) {
        Some(n) => n,
        None => 1,
    }
}

/// A cell reference that `parse_cell` can read: it has letters, its column
/// number fits and its row number is not zero.
pub open spec fn valid_cell_ref(s: Seq<char>) -> bool {
    1 <= letters_value(s) <= usize::MAX && cell_row_number(s) >= 1
}

proof fn lemma_letters_value_grows(s: Seq<char>, i: int)
    requires
        0 <= i <= s.len(),
    ensures
        0 <= letters_value(s.take(i)) <= letters_value(s),
    decreases s.len() - i,
{
    if i < s.len() {
        lemma_letters_value_grows(s, i + 1);
        let t = s.take(i + 1);
        assert(t.drop_last() =~= s.take(i));
        lemma_letters_value_nonneg(s.take(i));
        let v = letters_value(s.take(i));
        let c = t.last();
        if is_ascii_letter(c) {
            assert(v * 26 + (c as int - 65 + 1) >= v) by (nonlinear_arith)
                requires
                    v >= 0,
                    c as int >= 65,
            ;
        }
    } else {
        assert(s.take(i) =~= s);
        lemma_letters_value_nonneg(s);
    }
}

proof fn lemma_letters_value_nonneg(s: Seq<char>)
    ensures
        letters_value(s) >= 0,
    decreases s.len(),
{
    if s.len() > 0 {
        lemma_letters_value_nonneg(s.drop_last());
        let v = letters_value(s.drop_last());
        if is_ascii_letter(s.last()) {
            assert(v * 26 + (s.last() as int - 65 + 1) >= 0) by (nonlinear_arith)
                requires
                    v >= 0,
                    s.last() as int >= 65,
            ;
        }
    }
}

proof fn lemma_digits_value_grows(s: Seq<char>, i: int)
    requires
        0 <= i <= s.len(),
    ensures
        digits_value(s.take(i)) <= digits_value(s),
    decreases s.len() - i,
{
    if i < s.len() {
        lemma_digits_value_grows(s, i + 1);
        let t = s.take(i + 1);
        assert(t.drop_last() =~= s.take(i));
    } else {
        assert(s.take(i) =~= s);
    }
}

/// Reads an unsigned integer as `str::parse::<usize>` does.
pub fn parse_usize(s: &[char]) -> (r: Option<usize>)
    ensures
        match r {
            Some(n) => spec_parse_usize(s@) == Some(n as nat),
            None => spec_parse_usize(s@) is None,
        },
{
    let start: usize = if s.len() > 0 && s[0] == '+' { 1 } else { 0 };
    let ghost d = unsigned_digits(s@);
    assert(d =~= s@.skip(start as int));
    if start >= s.len() {
        return None;
    }
    let mut v: usize = 0;
    let mut i: usize = start;
    while i < s.len()
        invariant
            start <= i <= s@.len(),
            d == unsigned_digits(s@),
            d =~= s@.skip(start as int),
            forall|k: int| 0 <= k < i - start ==> is_ascii_digit(#[trigger] d[k]),
            v as nat == digits_value(d.take(i - start)),
        decreases s@.len() - i,
    {
        let c = s[i];
        assert(d[i - start] == c);
        if !('0' <= c && c <= '9') {
            assert(!is_ascii_digit(d[i - start]));
            assert(!all_digits(d));
            assert(d == unsigned_digits(s@));
            assert(spec_parse_usize(s@) is None);
            return None;
        }
        proof {
            let t = d.take(i - start + 1);
            assert(t.drop_last() =~= d.take(i - start));
            assert(t.last() == c);
        }
        let digit = (c as u32 - 48) as usize;
        let next = match v.checked_mul(10) {
            Some(m) => m.checked_add(digit),
            None => None,
        };
        match next {
            Some(n) => {
                v = n;
            },
            None => {
                proof {
                    lemma_digits_value_grows(d, i - start + 1);
                    assert(digits_value(d.take(i - start + 1)) == v * 10 + digit);
                    assert(digits_value(d) > usize::MAX);
                    assert(d == unsigned_digits(s@));
                }
                return None;
            },
        }
        i = i + 1;
    }
    assert(d.take(i - start) =~= d);
    Some(v)
}

/// The (row, column) coordinates, 0-indexed, of an A1 cell reference such as
/// `B4`: the letters spell the column, the other characters the row.
pub open spec fn spec_parse_cell(s: Seq<char>) -> (int, int) {
    (cell_row_number(s) - 1, letters_value(s) - 1)
}

/// Converts an Excel cell reference (e.g. `B4`) to 0-indexed (row, column).
pub fn parse_cell(cell_ref: &str) -> (r: (usize, usize))
    requires
        valid_cell_ref(cell_ref@),
    ensures
        (r.0 as int, r.1 as int) == spec_parse_cell(cell_ref@),
{
    let s = chars_of(cell_ref);
    let mut col: usize = 0;
    let mut row_chars: Vec<char> = Vec::new();
    let mut i: usize = 0;
    while i < s.len()
        invariant
            s@ == cell_ref@,
            i <= s@.len(),
            1 <= letters_value(s@) <= usize::MAX,
            col as int == letters_value(s@.take(i as int)),
            row_chars@ == non_letters(s@.take(i as int)),
        decreases s@.len() - i,
    {
        let c = s[i];
        proof {
            let t = s@.take(i + 1);
            assert(t.drop_last() =~= s@.take(i as int));
            assert(t.last() == c);
            lemma_letters_value_grows(s@, i + 1);
        }
        if ('A' <= c && c <= 'Z') || ('a' <= c && c <= 'z') {
            col = col * 26 + (c as u32 as usize - 65 + 1);
        } else {
            row_chars.push(c);
        }
        i = i + 1;
    }
    assert(s@.take(i as int) =~= s@);
    let row: usize = match parse_usize(row_chars.as_slice()) {
        Some(n) => n,
        None => 1,
    };
    (row - 1, col - 1)
}

/// `parse_cell` where the reference is readable, `None` where reading it
/// would fail.
pub fn checked_parse_cell(cell_ref: &str) -> (r: Option<(usize, usize)>)
    ensures
        match r {
            Some(p) => valid_cell_ref(cell_ref@) && (p.0 as int, p.1 as int) == spec_parse_cell(cell_ref@),
            None => !valid_cell_ref(cell_ref@),
        },
{
    let s = chars_of(cell_ref);
    let mut col: u128 = 0;
    let mut row_chars: Vec<char> = Vec::new();
    let mut i: usize = 0;
    while i < s.len()
        invariant
            s@ == cell_ref@,
            i <= s@.len(),
            col as int == letters_value(s@.take(i as int)),
            col <= usize::MAX,
            row_chars@ == non_letters(s@.take(i as int)),
        decreases s@.len() - i,
    {
        let c = s[i];
        proof {
            let t = s@.take(i + 1);
            assert(t.drop_last() =~= s@.take(i as int));
            assert(t.last() == c);
            lemma_letters_value_grows(s@, i + 1);
        }
        if ('A' <= c && c <= 'Z') || ('a' <= c && c <= 'z') {
            col = col * 26 + (c as u32 as u128 - 65 + 1);
            if col > usize::MAX as u128 {
                proof {
                    lemma_letters_value_grows(s@, i + 1);
                }
                return None;
            }
        } else {
            row_chars.push(c);
        }
        i = i + 1;
    }
    assert(s@.take(i as int) =~= s@);
    if col == 0 {
        return None;
    }
    match parse_usize(row_chars.as_slice()) {
        Some(0) => None,
        _ => Some(parse_cell(cell_ref)),
    }
}

/// Where each assumption sits on the ASSUMPTIONS sheet.
pub open spec fn spec_assumption_cells() -> Seq<(Seq<char>, Seq<char>)> {
    seq![
        ("WACC_CC"@, "B5"@),
        ("WACC_RID"@, "B4"@),
        ("RATE_COMPASS"@, "B6"@),
        ("RATE_FINDO"@, "B7"@),
        ("BAD_DEBT_RID"@, "B4"@),
        ("BAD_DEBT_CC"@, "B5"@),
        ("RATE_COMPASS_CUSTOMER"@, "D6"@),
        ("RATE_FINDO_CUSTOMER"@, "D7"@),
        ("NA_A"@, "B10"@),
        ("NA_B"@, "B11"@),
        ("NA_C"@, "B12"@),
        ("NA_D"@, "B13"@),
        ("NA_E"@, "B14"@),
        ("NA_CB"@, "B15"@),
        ("NA_NT"@, "B16"@),
        ("NA_A_PK"@, "B17"@),
        ("NA_B_PK"@, "B18"@),
        ("NA_C_PK"@, "B19"@),
        ("NA_D_PK"@, "B20"@),
        ("NA_E_PK"@, "B21"@),
        ("NA_CB_PK"@, "B22"@),
        ("NA_NT_PK"@, "B23"@),
        ("COMM_VAR"@, "B25"@),
        ("COMM_FIN"@, "B26"@),
        ("COMM_RPLUS"@, "B27"@),
        ("ACT_FEE"@, "B28"@),
        ("TARGET_PB_VAR"@, "B30"@),
        ("TARGET_PB_FIN"@, "B31"@),
    ]
}

/// Reads the product, assumption, churn and fascia workbooks; the reading
/// itself lives with the program, this type carries the sheet layout.
pub struct DataManager;

impl DataManager {
    /// The (assumption key, cell reference) pairs of the ASSUMPTIONS sheet.
    pub fn assumption_cells() -> (r: Vec<(&'static str, &'static str)>)
        ensures
            pairs_view(r@) == spec_assumption_cells(),
    {
        let v = vec![
            ("WACC_CC", "B5"),
            ("WACC_RID", "B4"),
            ("RATE_COMPASS", "B6"),
            ("RATE_FINDO", "B7"),
            ("BAD_DEBT_RID", "B4"),
            ("BAD_DEBT_CC", "B5"),
            ("RATE_COMPASS_CUSTOMER", "D6"),
            ("RATE_FINDO_CUSTOMER", "D7"),
            ("NA_A", "B10"),
            ("NA_B", "B11"),
            ("NA_C", "B12"),
            ("NA_D", "B13"),
            ("NA_E", "B14"),
            ("NA_CB", "B15"),
            ("NA_NT", "B16"),
            ("NA_A_PK", "B17"),
            ("NA_B_PK", "B18"),
            ("NA_C_PK", "B19"),
            ("NA_D_PK", "B20"),
            ("NA_E_PK", "B21"),
            ("NA_CB_PK", "B22"),
            ("NA_NT_PK", "B23"),
            ("COMM_VAR", "B25"),
            ("COMM_FIN", "B26"),
            ("COMM_RPLUS", "B27"),
            ("ACT_FEE", "B28"),
            ("TARGET_PB_VAR", "B30"),
            ("TARGET_PB_FIN", "B31"),
        ];
        assert(pairs_view(v@) =~= spec_assumption_cells());
        v
    }
}

} // verus!
