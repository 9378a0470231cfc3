//! Orchestration rules of the pricing engine: how a parameter edit is
//! dispatched and refused, and how compliance checks against the baseline
//! workbook are tallied per mode and per KPI.

use vstd::prelude::*;
use crate::text::str_eq;

verus! {

// ── Parameter edits ────────────────────────────────────────────

/// A pricing parameter of a mode that the cockpit lets a user edit.
#[derive(Clone, Copy, Debug, PartialEq, Eq, Structural)]
pub enum EditField {
    Fascia,
    Anticipo,
    ImportoSmart,
    RataHs,
    RataSmart,
    Sconto,
    ScontoTariffa,
}

/// The editable parameter called `name`, if any.
pub open spec fn spec_edit_field(name: Seq<char>) -> Option<EditField> {
    if name == "fascia"@ {
        Some(EditField::Fascia)
    } else if name == "anticipo"@ {
        Some(EditField::Anticipo)
    } else if name == "importo_smart"@ {
        Some(EditField::ImportoSmart)
    } else if name == "rata_hs"@ {
        Some(EditField::RataHs)
    } else if name == "rata_smart"@ {
        Some(EditField::RataSmart)
    } else if name == "sconto"@ {
        Some(EditField::Sconto)
    } else if name == "sconto_tariffa"@ {
        Some(EditField::ScontoTariffa)
    } else {
        None
    }
}

impl EditField {
    /// The editable parameter called `name`.
    pub fn from_name(name: &str) -> (r: Option<EditField>)
        ensures
            r == spec_edit_field(name@),
    {
        if str_eq(name, "fascia") {
            Some(EditField::Fascia)
        } else if str_eq(name, "anticipo") {
            Some(EditField::Anticipo)
        } else if str_eq(name, "importo_smart") {
            Some(EditField::ImportoSmart)
        } else if str_eq(name, "rata_hs") {
            Some(EditField::RataHs)
        } else if str_eq(name, "rata_smart") {
            Some(EditField::RataSmart)
        } else if str_eq(name, "sconto") {
            Some(EditField::Sconto)
        } else if str_eq(name, "sconto_tariffa") {
            Some(EditField::ScontoTariffa)
        } else {
            None
        }
    }
}

/// Each of the seven editable parameters is reached by its own name, and by
/// no other: two different names never select the same parameter.
pub proof fn lemma_edit_field_names()
    ensures
        spec_edit_field("fascia"@) == Some(EditField::Fascia),
        spec_edit_field("anticipo"@) == Some(EditField::Anticipo),
        spec_edit_field("importo_smart"@) == Some(EditField::ImportoSmart),
        spec_edit_field("rata_hs"@) == Some(EditField::RataHs),
        spec_edit_field("rata_smart"@) == Some(EditField::RataSmart),
        spec_edit_field("sconto"@) == Some(EditField::Sconto),
        spec_edit_field("sconto_tariffa"@) == Some(EditField::ScontoTariffa),
        forall|a: Seq<char>, b: Seq<char>|
            #![trigger spec_edit_field(a), spec_edit_field(b)]
            spec_edit_field(a) is Some && spec_edit_field(a) == spec_edit_field(b) ==> a == b,
{
    reveal_strlit("fascia");
    reveal_strlit("anticipo");
    reveal_strlit("importo_smart");
    reveal_strlit("rata_hs");
    reveal_strlit("rata_smart");
    reveal_strlit("sconto");
    reveal_strlit("sconto_tariffa");
    assert("fascia"@[0] != "anticipo"@[0]);
    assert("fascia"@[0] != "importo_smart"@[0]);
    assert("fascia"@[0] != "rata_hs"@[0]);
    assert("fascia"@[0] != "rata_smart"@[0]);
    assert("fascia"@[0] != "sconto"@[0]);
    assert("fascia"@[0] != "sconto_tariffa"@[0]);
    assert("anticipo"@[0] != "importo_smart"@[0]);
    assert("anticipo"@[0] != "rata_hs"@[0]);
    assert("anticipo"@[0] != "rata_smart"@[0]);
    assert("anticipo"@[0] != "sconto"@[0]);
    assert("anticipo"@[0] != "sconto_tariffa"@[0]);
    assert("importo_smart"@[0] != "rata_hs"@[0]);
    assert("importo_smart"@[0] != "rata_smart"@[0]);
    assert("importo_smart"@[0] != "sconto"@[0]);
    assert("importo_smart"@[0] != "sconto_tariffa"@[0]);
    assert("rata_hs"@[5] != "rata_smart"@[5]);
    assert("rata_hs"@[0] != "sconto"@[0]);
    assert("rata_hs"@[0] != "sconto_tariffa"@[0]);
    assert("rata_smart"@[0] != "sconto"@[0]);
    assert("rata_smart"@[0] != "sconto_tariffa"@[0]);
    assert("sconto"@.len() != "sconto_tariffa"@.len());
}

/// Why an edit is refused; each variant carries the name it could not find.
#[derive(Clone, Debug, PartialEq, Eq)]
pub enum EditError {
    ProductNotFound(String),
    ModeNotFound(String),
    UnknownField(String),
}

/// The message of an edit refusal.
pub open spec fn spec_edit_message(e: EditError) -> Seq<char> {
    match e {
        EditError::ProductNotFound(id) => "Product not found: "@ + id@,
        EditError::ModeNotFound(m) => "Mode not found: "@ + m@,
        EditError::UnknownField(f) => "Unknown field: "@ + f@,
    }
}

impl EditError {
    /// The message shown for this refusal.
    pub fn message(&self) -> (r: String)
        ensures
            r@ == spec_edit_message(*self),
    {
        let (prefix, name) = match self {
            EditError::ProductNotFound(id) => ("Product not found: ", id),
            EditError::ModeNotFound(m) => ("Mode not found: ", m),
            EditError::UnknownField(f) => ("Unknown field: ", f),
        };
        let mut s = String::from_str(prefix);
        s.append(name.as_str());
        s
    }
}

/// The outcome of an edit request: the product must exist, then the field
/// must be editable, then the product must have the mode.
pub open spec fn spec_plan_edit(
    product_id: Seq<char>,
    product_found: bool,
    mode: Seq<char>,
    mode_found: bool,
    field: Seq<char>,
) -> Result<EditField, (int, Seq<char>)> {
    if !product_found {
        Err((0, product_id))
    } else {
        match spec_edit_field(field) {
            None => Err((2, field)),
            Some(f) => if mode_found { Ok(f) } else { Err((1, mode)) },
        }
    }
}

/// The kind and the name carried by an edit refusal.
pub open spec fn edit_error_parts(e: EditError) -> (int, Seq<char>) {
    match e {
        EditError::ProductNotFound(id) => (0, id@),
        EditError::ModeNotFound(m) => (1, m@),
        EditError::UnknownField(f) => (2, f@),
    }
}

/// Decides an edit request: which field to set, or why it is refused.
pub fn plan_edit(
    product_id: &str,
    product_found: bool,
    mode: &str,
    mode_found: bool,
    field: &str,
) -> (r: Result<EditField, EditError>)
    ensures
        match r {
            Ok(f) => spec_plan_edit(product_id@, product_found, mode@, mode_found, field@) == Ok::<EditField, (int, Seq<char>)>(f),
            Err(e) => spec_plan_edit(product_id@, product_found, mode@, mode_found, field@) == Err::<EditField, (int, Seq<char>)>(edit_error_parts(e)),
        },
{
    if !product_found {
        return Err(EditError::ProductNotFound(String::from_str(product_id)));
    }
    match EditField::from_name(field) {
        None => Err(EditError::UnknownField(String::from_str(field))),
        Some(f) => {
            if mode_found {
                Ok(f)
            } else {
                Err(EditError::ModeNotFound(String::from_str(mode)))
            }
        },
    }
}

// ── Compliance tally ───────────────────────────────────────────

/// A KPI compared against the baseline, in report order.
#[derive(Clone, Copy, Debug, PartialEq, Eq, Structural)]
pub enum KpiKind {
    Npv,
    PbPl,
    PbCash,
}

/// The position of a KPI in report order: npv, pb_pl, pb_cash.
pub open spec fn kpi_kind_index(k: KpiKind) -> int {
    match k {
        KpiKind::Npv => 0,
        KpiKind::PbPl => 1,
        KpiKind::PbCash => 2,
    }
}

impl KpiKind {
    /// The KPI's name in reports.
    pub fn name(&self) -> (r: &'static str)
        ensures
            r@ == (match *self {
                KpiKind::Npv => "npv"@,
                KpiKind::PbPl => "pb_pl"@,
                KpiKind::PbCash => "pb_cash"@,
            }),
    {
        match self {
            KpiKind::Npv => "npv",
            KpiKind::PbPl => "pb_pl",
            KpiKind::PbCash => "pb_cash",
        }
    }

    /// The KPI's position in report order.
    pub fn index(&self) -> (r: usize)
        ensures
            r as int == kpi_kind_index(*self),
    {
        match self {
            KpiKind::Npv => 0,
            KpiKind::PbPl => 1,
            KpiKind::PbCash => 2,
        }
    }
}

/// One comparison of a computed KPI with its baseline value: the mode's
/// position in `MODES`, the KPI, and whether the values agreed within the
/// tolerance.
#[derive(Clone, Copy, Debug, PartialEq, Eq)]
pub struct CheckOutcome {
    pub mode: usize,
    pub kpi: KpiKind,
    pub passed: bool,
}

/// Checked and passed counts of one group of comparisons.
#[derive(Clone, Copy, Debug, PartialEq, Eq)]
pub struct Counts {
    pub checked: usize,
    pub passed: usize,
}

/// The counts of a compliance run: overall, per mode (in `MODES` order) and
/// per KPI (npv, pb_pl, pb_cash).
#[derive(Clone, Debug, PartialEq, Eq)]
pub struct Tally {
    pub checked: usize,
    pub passed: usize,
    pub per_mode: Vec<Counts>,
    pub per_kpi: Vec<Counts>,
}

/// Number of comparisons in `s` that passed.
pub open spec fn count_passed(s: Seq<CheckOutcome>) -> nat
    decreases s.len(),
{
    if s.len() == 0 {
        0
    } else {
        count_passed(s.drop_last()) + if s.last().passed { 1nat } else { 0nat }
    }
}

/// Number of comparisons in `s` of mode `m` (that passed, when `only_passed`).
pub open spec fn count_mode(s: Seq<CheckOutcome>, m: int, only_passed: bool) -> nat
    decreases s.len(),
{
    if s.len() == 0 {
        0
    } else {
        count_mode(s.drop_last(), m, only_passed)
            + if s.last().mode == m && (!only_passed || s.last().passed) { 1nat } else { 0nat }
    }
}

/// Number of comparisons in `s` of the KPI at position `k` (that passed,
/// when `only_passed`).
pub open spec fn count_kpi(s: Seq<CheckOutcome>, k: int, only_passed: bool) -> nat
    decreases s.len(),
{
    if s.len() == 0 {
        0
    } else {
        count_kpi(s.drop_last(), k, only_passed)
            + if kpi_kind_index(s.last().kpi) == k && (!only_passed || s.last().passed) { 1nat } else { 0nat }
    }
}

/// A tally that counts `s` exactly.
pub open spec fn tally_of(t: Tally, s: Seq<CheckOutcome>) -> bool {
    &&& t.checked == s.len()
    &&& t.passed == count_passed(s)
    &&& t.per_mode@.len() == 7
    &&& t.per_kpi@.len() == 3
    &&& forall|m: int| 0 <= m < 7 ==> {
        &&& (#[trigger] t.per_mode@[m]).checked == count_mode(s, m, false)
        &&& t.per_mode@[m].passed == count_mode(s, m, true)
    }
    &&& forall|k: int| 0 <= k < 3 ==> {
        &&& (#[trigger] t.per_kpi@[k]).checked == count_kpi(s, k, false)
        &&& t.per_kpi@[k].passed == count_kpi(s, k, true)
    }
}

proof fn lemma_counts_bounded(s: Seq<CheckOutcome>, m: int, k: int)
    ensures
        count_passed(s) <= s.len(),
        count_mode(s, m, true) <= count_mode(s, m, false) <= s.len(),
        count_kpi(s, k, true) <= count_kpi(s, k, false) <= s.len(),
    decreases s.len(),
{
    if s.len() > 0 {
        lemma_counts_bounded(s.drop_last(), m, k);
    }
}

fn zero_counts(n: usize) -> (r: Vec<Counts>)
    ensures
        r@.len() == n,
        forall|i: int| 0 <= i < n ==> (#[trigger] r@[i]).checked == 0 && r@[i].passed == 0,
{
    let mut r: Vec<Counts> = Vec::new();
    let mut i: usize = 0;
    while i < n
        invariant
            i <= n,
            r@.len() == i,
            forall|j: int| 0 <= j < i ==> (#[trigger] r@[j]).checked == 0 && r@[j].passed == 0,
        decreases n - i,
    {
        r.push(Counts { checked: 0, passed: 0 });
        i = i + 1;
    }
    r
}

/// Counts the comparisons of a compliance run, overall, per mode and per KPI.
pub fn tally_checks(outcomes: &Vec<CheckOutcome>) -> (t: Tally)
    requires
        forall|i: int| 0 <= i < outcomes@.len() ==> (#[trigger] outcomes@[i]).mode < 7,
    ensures
        tally_of(t, outcomes@),
{
    let mut checked: usize = 0;
    let mut passed: usize = 0;
    let mut per_mode = zero_counts(7);
    let mut per_kpi = zero_counts(3);
    let mut i: usize = 0;
    while i < outcomes.len()
        invariant
            i <= outcomes@.len(),
            forall|j: int| 0 <= j < outcomes@.len() ==> (#[trigger] outcomes@[j]).mode < 7,
            tally_of(
                Tally { checked, passed, per_mode, per_kpi },
                outcomes@.take(i as int),
            ),
        decreases outcomes@.len() - i,
    {
        let o = outcomes[i];
        let ghost prev = outcomes@.take(i as int);
        let ghost next = outcomes@.take(i + 1);
        proof {
            assert(next.drop_last() =~= prev);
            assert(next.last() == o);
            lemma_counts_bounded(prev, o.mode as int, kpi_kind_index(o.kpi));
        }
        let k = o.kpi.index();
        let mc = per_mode[o.mode];
        let kc = per_kpi[k];
        let add: usize = if o.passed { 1 } else { 0 };
        per_mode.set(o.mode, Counts { checked: mc.checked + 1, passed: mc.passed + add });
        per_kpi.set(k, Counts { checked: kc.checked + 1, passed: kc.passed + add });
        checked = checked + 1;
        passed = passed + add;
        i = i + 1;
        proof {
            assert forall|m: int| 0 <= m < 7 implies {
                &&& (#[trigger] per_mode@[m]).checked == count_mode(next, m, false)
                &&& per_mode@[m].passed == count_mode(next, m, true)
            } by {}
            assert forall|kk: int| 0 <= kk < 3 implies {
                &&& (#[trigger] per_kpi@[kk]).checked == count_kpi(next, kk, false)
                &&& per_kpi@[kk].passed == count_kpi(next, kk, true)
            } by {}
        }
    }
    assert(outcomes@.take(i as int) =~= outcomes@);
    Tally { checked, passed, per_mode, per_kpi }
}


/// Sum of the mode counts over the seven modes.
pub open spec fn mode_sum(s: Seq<CheckOutcome>, only_passed: bool) -> nat {
    count_mode(s, 0, only_passed) + count_mode(s, 1, only_passed) + count_mode(s, 2, only_passed)
        + count_mode(s, 3, only_passed) + count_mode(s, 4, only_passed)
        + count_mode(s, 5, only_passed) + count_mode(s, 6, only_passed)
}

/// Sum of the KPI counts over the three KPIs.
pub open spec fn kpi_sum(s: Seq<CheckOutcome>, only_passed: bool) -> nat {
    count_kpi(s, 0, only_passed) + count_kpi(s, 1, only_passed) + count_kpi(s, 2, only_passed)
}

proof fn lemma_sums(s: Seq<CheckOutcome>)
    requires
        forall|i: int| 0 <= i < s.len() ==> (#[trigger] s[i]).mode < 7,
    ensures
        mode_sum(s, false) == s.len(),
        mode_sum(s, true) == count_passed(s),
        kpi_sum(s, false) == s.len(),
        kpi_sum(s, true) == count_passed(s),
    decreases s.len(),
{
    if s.len() > 0 {
        let p = s.drop_last();
        assert forall|i: int| 0 <= i < p.len() implies (#[trigger] p[i]).mode < 7 by {
            assert(p[i] == s[i]);
        }
        lemma_sums(p);
        assert(s.last().mode < 7);
    }
}

/// In every tally of a compliance run no more comparisons pass than are
/// checked, and the per-mode and the per-KPI counts each add up to the
/// overall counts.
pub proof fn lemma_tally_consistent(t: Tally, s: Seq<CheckOutcome>)
    requires
        tally_of(t, s),
        forall|i: int| 0 <= i < s.len() ==> (#[trigger] s[i]).mode < 7,
    ensures
        t.passed <= t.checked,
        t.per_mode@[0].checked + t.per_mode@[1].checked + t.per_mode@[2].checked
            + t.per_mode@[3].checked + t.per_mode@[4].checked + t.per_mode@[5].checked
            + t.per_mode@[6].checked == t.checked,
        t.per_mode@[0].passed + t.per_mode@[1].passed + t.per_mode@[2].passed
            + t.per_mode@[3].passed + t.per_mode@[4].passed + t.per_mode@[5].passed
            + t.per_mode@[6].passed == t.passed,
        t.per_kpi@[0].checked + t.per_kpi@[1].checked + t.per_kpi@[2].checked == t.checked,
        t.per_kpi@[0].passed + t.per_kpi@[1].passed + t.per_kpi@[2].passed == t.passed,
        forall|m: int| 0 <= m < 7 ==> (#[trigger] t.per_mode@[m]).passed <= t.per_mode@[m].checked,
        forall|k: int| 0 <= k < 3 ==> (#[trigger] t.per_kpi@[k]).passed <= t.per_kpi@[k].checked,
{
    lemma_sums(s);
    lemma_counts_bounded(s, 0, 0);
    assert(t.per_mode@[0].checked == count_mode(s, 0, false));
    assert(t.per_mode@[1].checked == count_mode(s, 1, false));
    assert(t.per_mode@[2].checked == count_mode(s, 2, false));
    assert(t.per_mode@[3].checked == count_mode(s, 3, false));
    assert(t.per_mode@[4].checked == count_mode(s, 4, false));
    assert(t.per_mode@[5].checked == count_mode(s, 5, false));
    assert(t.per_mode@[6].checked == count_mode(s, 6, false));
    assert(t.per_kpi@[0].checked == count_kpi(s, 0, false));
    assert(t.per_kpi@[1].checked == count_kpi(s, 1, false));
    assert(t.per_kpi@[2].checked == count_kpi(s, 2, false));
    assert forall|m: int| 0 <= m < 7 implies (#[trigger] t.per_mode@[m]).passed <= t.per_mode@[m].checked by {
        lemma_counts_bounded(s, m, 0);
    }
    assert forall|k: int| 0 <= k < 3 implies (#[trigger] t.per_kpi@[k]).passed <= t.per_kpi@[k].checked by {
        lemma_counts_bounded(s, 0, k);
    }
}

} // verus!
