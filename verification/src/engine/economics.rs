//! The economics engine's rules that do not involve floating-point
//! arithmetic: which assumption feeds which KPI for each mode, how product
//! clusters map to net-ARPU assumptions, the layout of a cash-flow schedule,
//! the KPI verdict and the normalisation of number text.

use vstd::prelude::*;
use crate::engine::types::{lookup_str, mode_name_at, pairs_view, table_lookup};
use crate::text::{
    chars_of, str_eq, str_contains, trim_chars, to_uppercase, spec_trim, unicode_upper,
    spec_contains, string_of_chars, str_ends_with, spec_ends_with, spec_starts_with,
};

verus! {

// ── Look-up tables ──────────────────────────────────────────────

/// Net-ARPU assumption key per product cluster.
pub open spec fn spec_profile_arpu_table() -> Seq<(Seq<char>, Seq<char>)> {
    seq![
        ("1"@, "NA_A"@), ("A"@, "NA_A"@),
        ("2"@, "NA_B"@), ("B"@, "NA_B"@),
        ("3"@, "NA_C"@), ("C"@, "NA_C"@),
        ("4"@, "NA_D"@), ("D"@, "NA_D"@),
        ("5"@, "NA_E"@), ("E"@, "NA_E"@),
        ("CB"@, "NA_CB"@),
        ("NT"@, "NA_NT"@),
    ]
}

/// Commission assumption key per mode.
pub open spec fn spec_mode_commission_table() -> Seq<(Seq<char>, Seq<char>)> {
    seq![
        ("VAR_CC"@, "COMM_VAR"@),
        ("VAR_RID"@, "COMM_VAR"@),
        ("FIN_COMPASS"@, "COMM_FIN"@),
        ("FIN_FINDO"@, "COMM_FIN"@),
        ("RELOAD_CC"@, "COMM_RPLUS"@),
        ("RELOAD_COMP"@, "COMM_RPLUS"@),
        ("RELOAD_FINDO"@, "COMM_RPLUS"@),
    ]
}

/// Bad-debt rate assumption key per mode; the financed modes have none, their
/// risk being carried by the financing spread.
pub open spec fn spec_bad_debt_mode_table() -> Seq<(Seq<char>, Seq<char>)> {
    seq![
        ("VAR_RID"@, "BAD_DEBT_RID"@),
        ("VAR_CC"@, "BAD_DEBT_CC"@),
        ("RELOAD_CC"@, "BAD_DEBT_CC"@),
        ("RELOAD_COMP"@, "BAD_DEBT_CC"@),
        ("RELOAD_FINDO"@, "BAD_DEBT_CC"@),
    ]
}

/// Internal and customer financing-rate keys per financed mode.
pub open spec fn spec_fin_rate_table() -> Seq<(Seq<char>, Seq<char>, Seq<char>)> {
    seq![
        ("FIN_COMPASS"@, "RATE_COMPASS"@, "RATE_COMPASS_CUSTOMER"@),
        ("FIN_FINDO"@, "RATE_FINDO"@, "RATE_FINDO_CUSTOMER"@),
    ]
}

/// The table of cluster → net-ARPU key.
pub fn profile_arpu_map() -> (r: Vec<(&'static str, &'static str)>)
    ensures
        pairs_view(r@) == spec_profile_arpu_table(),
{
    let v = vec![
        ("1", "NA_A"), ("A", "NA_A"),
        ("2", "NA_B"), ("B", "NA_B"),
        ("3", "NA_C"), ("C", "NA_C"),
        ("4", "NA_D"), ("D", "NA_D"),
        ("5", "NA_E"), ("E", "NA_E"),
        ("CB", "NA_CB"),
        ("NT", "NA_NT"),
    ];
    assert(pairs_view(v@) =~= spec_profile_arpu_table());
    v
}

/// The table of mode → commission key.
pub fn mode_commission_map() -> (r: Vec<(&'static str, &'static str)>)
    ensures
        pairs_view(r@) == spec_mode_commission_table(),
{
    let v = vec![
        ("VAR_CC", "COMM_VAR"),
        ("VAR_RID", "COMM_VAR"),
        ("FIN_COMPASS", "COMM_FIN"),
        ("FIN_FINDO", "COMM_FIN"),
        ("RELOAD_CC", "COMM_RPLUS"),
        ("RELOAD_COMP", "COMM_RPLUS"),
        ("RELOAD_FINDO", "COMM_RPLUS"),
    ];
    assert(pairs_view(v@) =~= spec_mode_commission_table());
    v
}

/// The table of mode → bad-debt key.
pub fn bad_debt_mode_map() -> (r: Vec<(&'static str, &'static str)>)
    ensures
        pairs_view(r@) == spec_bad_debt_mode_table(),
{
    let v = vec![
        ("VAR_RID", "BAD_DEBT_RID"),
        ("VAR_CC", "BAD_DEBT_CC"),
        ("RELOAD_CC", "BAD_DEBT_CC"),
        ("RELOAD_COMP", "BAD_DEBT_CC"),
        ("RELOAD_FINDO", "BAD_DEBT_CC"),
    ];
    assert(pairs_view(v@) =~= spec_bad_debt_mode_table());
    v
}

/// A table of string triples, taken by its views.
pub open spec fn triples_view(t: Seq<(&str, &str, &str)>) -> Seq<(Seq<char>, Seq<char>, Seq<char>)> {
    t.map_values(|e: (&str, &str, &str)| (e.0@, e.1@, e.2@))
}

/// The pair of values of the first triple whose key is `key`.
pub open spec fn triple_lookup(
    t: Seq<(Seq<char>, Seq<char>, Seq<char>)>,
    key: Seq<char>,
) -> Option<(Seq<char>, Seq<char>)>
    decreases t.len(),
{
    if t.len() == 0 {
        None
    } else if t[0].0 == key {
        Some((t[0].1, t[0].2))
    } else {
        triple_lookup(t.drop_first(), key)
    }
}

/// The table of financed mode → (internal rate key, customer rate key).
pub fn fin_rate_map() -> (r: Vec<(&'static str, &'static str, &'static str)>)
    ensures
        triples_view(r@) == spec_fin_rate_table(),
{
    let v = vec![
        ("FIN_COMPASS", "RATE_COMPASS", "RATE_COMPASS_CUSTOMER"),
        ("FIN_FINDO", "RATE_FINDO", "RATE_FINDO_CUSTOMER"),
    ];
    assert(triples_view(v@) =~= spec_fin_rate_table());
    v
}

/// The financing-rate keys (internal, customer) of a financed mode.
pub fn lookup_fin(key: &str) -> (r: Option<(&'static str, &'static str)>)
    ensures
        match r {
            Some((a, b)) => triple_lookup(spec_fin_rate_table(), key@) == Some((a@, b@)),
            None => triple_lookup(spec_fin_rate_table(), key@) is None,
        },
{
    let map = fin_rate_map();
    let mut i: usize = 0;
    assert(triples_view(map@).skip(0) =~= triples_view(map@));
    while i < map.len()
        invariant
            triples_view(map@) == spec_fin_rate_table(),
            i <= map@.len(),
            triple_lookup(spec_fin_rate_table(), key@) == triple_lookup(
                triples_view(map@).skip(i as int),
                key@,
            ),
        decreases map@.len() - i,
    {
        let ghost rest = triples_view(map@).skip(i as int);
        assert(rest[0] == (map@[i as int].0@, map@[i as int].1@, map@[i as int].2@));
        if str_eq(map[i].0, key) {
            return Some((map[i].1, map[i].2));
        }
        assert(rest.drop_first() =~= triples_view(map@).skip(i + 1));
        i = i + 1;
    }
    assert(triples_view(map@).skip(i as int).len() == 0);
    None
}

// ── Assumption keys per mode ────────────────────────────────────

/// The bad-debt rate key of `mode`; `None` for the financed modes and for
/// unknown modes, which carry no bad-debt adjustment.
pub fn bad_debt_key(mode: &str) -> (r: Option<&'static str>)
    ensures
        match r {
            Some(k) => table_lookup(spec_bad_debt_mode_table(), mode@) == Some(k@),
            None => table_lookup(spec_bad_debt_mode_table(), mode@) is None,
        },
{
    let map = bad_debt_mode_map();
    lookup_str(map.as_slice(), mode)
}

/// The commission key of `mode`; unknown modes fall back to `COMM_VAR`.
pub open spec fn spec_commission_key(mode: Seq<char>) -> Seq<char> {
    match table_lookup(spec_mode_commission_table(), mode) {
        Some(k) => k,
        None => "COMM_VAR"@,
    }
}

/// The commission key of `mode`.
pub fn commission_key(mode: &str) -> (r: &'static str)
    ensures
        r@ == spec_commission_key(mode@),
{
    let map = mode_commission_map();
    match lookup_str(map.as_slice(), mode) {
        Some(k) => k,
        None => "COMM_VAR",
    }
}

/// Which assumption gives a mode its annual discount rate.
#[derive(Clone, Copy, Debug, PartialEq, Eq, Structural)]
pub enum RateBasis {
    /// `BAD_DEBT_RID` (VAR_RID).
    Rid,
    /// `RATE_COMPASS` (FIN_COMPASS, RELOAD_COMP).
    Compass,
    /// `RATE_FINDO` (FIN_FINDO, RELOAD_FINDO).
    Findo,
    /// `BAD_DEBT_CC` (every other mode).
    Cc,
}

/// The annual-rate basis of `mode`.
pub open spec fn spec_rate_basis(mode: Seq<char>) -> RateBasis {
    if mode == "VAR_RID"@ {
        RateBasis::Rid
    } else if mode == "FIN_COMPASS"@ || mode == "RELOAD_COMP"@ {
        RateBasis::Compass
    } else if mode == "FIN_FINDO"@ || mode == "RELOAD_FINDO"@ {
        RateBasis::Findo
    } else {
        RateBasis::Cc
    }
}

/// The assumption key of a rate basis.
pub open spec fn spec_rate_key(b: RateBasis) -> Seq<char> {
    match b {
        RateBasis::Rid => "BAD_DEBT_RID"@,
        RateBasis::Compass => "RATE_COMPASS"@,
        RateBasis::Findo => "RATE_FINDO"@,
        RateBasis::Cc => "BAD_DEBT_CC"@,
    }
}

impl RateBasis {
    /// The assumption key that holds this annual rate.
    pub fn key(&self) -> (r: &'static str)
        ensures
            r@ == spec_rate_key(*self),
    {
        match self {
            RateBasis::Rid => "BAD_DEBT_RID",
            RateBasis::Compass => "RATE_COMPASS",
            RateBasis::Findo => "RATE_FINDO",
            RateBasis::Cc => "BAD_DEBT_CC",
        }
    }
}

/// Which assumption gives `mode` its annual discount rate.
pub fn annual_rate_basis(mode: &str) -> (r: RateBasis)
    ensures
        r == spec_rate_basis(mode@),
{
    if str_eq(mode, "VAR_RID") {
        RateBasis::Rid
    } else if str_eq(mode, "FIN_COMPASS") || str_eq(mode, "RELOAD_COMP") {
        RateBasis::Compass
    } else if str_eq(mode, "FIN_FINDO") || str_eq(mode, "RELOAD_FINDO") {
        RateBasis::Findo
    } else {
        RateBasis::Cc
    }
}

/// Which payback target applies to a mode.
#[derive(Clone, Copy, Debug, PartialEq, Eq, Structural)]
pub enum PaybackGroup {
    /// `TARGET_PB_FIN`, 16 months unless the assumption says otherwise.
    Fin,
    /// `TARGET_PB_VAR`, 12 months unless the assumption says otherwise.
    Var,
}

/// Cluster `n` (1 to 5) and the `n`-th letter (A to E) name the same
/// net-ARPU key, `NA_` followed by that letter; CB and NT have their own keys.
pub proof fn lemma_cluster_keys(k: int)
    requires
        0 <= k < 5,
    ensures
        table_lookup(spec_profile_arpu_table(), seq![(49 + k) as char])
            == Some("NA_"@.push((65 + k) as char)),
        table_lookup(spec_profile_arpu_table(), seq![(65 + k) as char])
            == Some("NA_"@.push((65 + k) as char)),
        table_lookup(spec_profile_arpu_table(), "CB"@) == Some("NA_CB"@),
        table_lookup(spec_profile_arpu_table(), "NT"@) == Some("NA_NT"@),
{
    reveal_strlit("1");
    reveal_strlit("2");
    reveal_strlit("3");
    reveal_strlit("4");
    reveal_strlit("5");
    reveal_strlit("A");
    reveal_strlit("B");
    reveal_strlit("C");
    reveal_strlit("D");
    reveal_strlit("E");
    reveal_strlit("CB");
    reveal_strlit("NT");
    reveal_strlit("NA_");
    reveal_strlit("NA_A");
    reveal_strlit("NA_B");
    reveal_strlit("NA_C");
    reveal_strlit("NA_D");
    reveal_strlit("NA_E");
    reveal_strlit("NA_CB");
    reveal_strlit("NA_NT");
    reveal_with_fuel(table_lookup, 13);
    let t = spec_profile_arpu_table();
    let d = seq![(49 + k) as char];
    let l = seq![(65 + k) as char];
    let key = "NA_"@.push((65 + k) as char);
    if k == 0 {
        assert(d =~= "1"@);
        assert(l =~= "A"@);
        assert(key =~= "NA_A"@);
    } else if k == 1 {
        assert(d =~= "2"@);
        assert(l =~= "B"@);
        assert(key =~= "NA_B"@);
        assert("1"@ != d) by { assert("1"@[0] != d[0]); }
        assert("A"@ != d) by { assert("A"@[0] != d[0]); }
        assert("1"@ != l) by { assert("1"@[0] != l[0]); }
        assert("A"@ != l) by { assert("A"@[0] != l[0]); }
    } else if k == 2 {
        assert(d =~= "3"@);
        assert(l =~= "C"@);
        assert(key =~= "NA_C"@);
        assert(forall|x: Seq<char>| x.len() == 1 && x[0] != d[0] ==> x != d);
        assert(forall|x: Seq<char>| x.len() == 1 && x[0] != l[0] ==> x != l);
    } else if k == 3 {
        assert(d =~= "4"@);
        assert(l =~= "D"@);
        assert(key =~= "NA_D"@);
        assert(forall|x: Seq<char>| x.len() == 1 && x[0] != d[0] ==> x != d);
        assert(forall|x: Seq<char>| x.len() == 1 && x[0] != l[0] ==> x != l);
    } else {
        assert(d =~= "5"@);
        assert(l =~= "E"@);
        assert(key =~= "NA_E"@);
        assert(forall|x: Seq<char>| x.len() == 1 && x[0] != d[0] ==> x != d);
        assert(forall|x: Seq<char>| x.len() == 1 && x[0] != l[0] ==> x != l);
    }
    assert("CB"@.len() != "C"@.len());
    assert("CB"@[0] != "1"@[0] && "CB"@[0] != "2"@[0] && "CB"@[0] != "3"@[0] && "CB"@[0] != "4"@[0]
        && "CB"@[0] != "5"@[0] && "CB"@[0] != "A"@[0] && "CB"@[0] != "B"@[0] && "CB"@[0] != "D"@[0]
        && "CB"@[0] != "E"@[0]);
    assert("NT"@[0] != "1"@[0] && "NT"@[0] != "2"@[0] && "NT"@[0] != "3"@[0] && "NT"@[0] != "4"@[0]
        && "NT"@[0] != "5"@[0] && "NT"@[0] != "A"@[0] && "NT"@[0] != "B"@[0] && "NT"@[0] != "C"@[0]
        && "NT"@[0] != "D"@[0] && "NT"@[0] != "E"@[0] && "NT"@[0] != "CB"@[0]);
}

/// The payback group of `mode`: the financed modes FIN_COMPASS and FIN_FINDO
/// are held to the financing target, every VAR and RELOAD mode (and any other
/// mode) to the variable one.
pub open spec fn spec_payback_group(mode: Seq<char>) -> PaybackGroup {
    if mode == "FIN_COMPASS"@ || mode == "FIN_FINDO"@ {
        PaybackGroup::Fin
    } else {
        PaybackGroup::Var
    }
}

impl PaybackGroup {
    /// The assumption key that holds this payback target.
    pub fn key(&self) -> (r: &'static str)
        ensures
            r@ == (match *self {
                PaybackGroup::Fin => "TARGET_PB_FIN"@,
                PaybackGroup::Var => "TARGET_PB_VAR"@,
            }),
    {
        match self {
            PaybackGroup::Fin => "TARGET_PB_FIN",
            PaybackGroup::Var => "TARGET_PB_VAR",
        }
    }

    /// The target in months when the assumption is absent or zero.
    pub fn default_months(&self) -> (r: u32)
        ensures
            r == (match *self {
                PaybackGroup::Fin => 16u32,
                PaybackGroup::Var => 12u32,
            }),
    {
        match self {
            PaybackGroup::Fin => 16,
            PaybackGroup::Var => 12,
        }
    }
}

/// The payback group of `mode`.
pub fn target_pb_group(mode: &str) -> (r: PaybackGroup)
    ensures
        r == spec_payback_group(mode@),
{
    if str_eq(mode, "FIN_COMPASS") || str_eq(mode, "FIN_FINDO") {
        PaybackGroup::Fin
    } else {
        PaybackGroup::Var
    }
}

// ── Net ARPU key ───────────────────────────────────────────────

/// The cluster that names a row of the cluster table: a cluster ending in
/// `_PK` (the prepaid variant) is looked up without that suffix.
pub open spec fn spec_cluster_base(c: Seq<char>) -> Seq<char> {
    if spec_ends_with(c, "_PK"@) {
        c.subrange(0, c.len() - 3)
    } else {
        c
    }
}

/// The net-ARPU assumption key of a product cluster, given the keys that the
/// assumptions hold: the cluster is trimmed and upper-cased, its `_PK` suffix
/// set aside, and the rest looked up in the cluster table; a cluster
/// mentioning `PK` takes the `_PK` variant of its key when the assumptions
/// hold that variant.
pub open spec fn spec_net_arpu_key(cluster: Seq<char>, known: Seq<Seq<char>>) -> Option<Seq<char>> {
    spec_net_arpu_key_of_upper(unicode_upper(spec_trim(cluster)), known)
}

/// The net-ARPU assumption key of a cluster already trimmed and upper-cased.
pub open spec fn spec_net_arpu_key_of_upper(c: Seq<char>, known: Seq<Seq<char>>) -> Option<Seq<char>> {
    match table_lookup(spec_profile_arpu_table(), spec_cluster_base(c)) {
        None => None,
        Some(k) => if spec_contains(c, "PK"@) && known.contains(k + "_PK"@) {
            Some(k + "_PK"@)
        } else {
            Some(k)
        },
    }
}

/// The first `n` characters of `v`.
fn take_chars(v: &[char], n: usize) -> (r: Vec<char>)
    requires
        n <= v@.len(),
    ensures
        r@ == v@.take(n as int),
{
    let mut r: Vec<char> = Vec::new();
    let mut i: usize = 0;
    while i < n
        invariant
            i <= n,
            n <= v@.len(),
            r@ == v@.take(i as int),
        decreases n - i,
    {
        r.push(v[i]);
        i = i + 1;
        assert(r@ =~= v@.take(i as int));
    }
    r
}

fn contains_key(known: &[String], key: &str) -> (r: bool)
    ensures
        r == known@.map_values(|s: String| s@).contains(key@),
{
    let ghost views = known@.map_values(|s: String| s@);
    let mut i: usize = 0;
    while i < known.len()
        invariant
            views == known@.map_values(|s: String| s@),
            i <= known@.len(),
            forall|j: int| 0 <= j < i ==> views[j] != key@,
        decreases known@.len() - i,
    {
        if str_eq(known[i].as_str(), key) {
            assert(views[i as int] == key@);
            return true;
        }
        i = i + 1;
    }
    false
}

/// The net-ARPU assumption key of `cluster`; `None` for a cluster outside the
/// table, whose net ARPU is zero.
pub fn net_arpu_key(cluster: &str, known_keys: &[String]) -> (r: Option<String>)
    ensures
        match r {
            Some(k) => spec_net_arpu_key(cluster@, known_keys@.map_values(|s: String| s@)) == Some(k@),
            None => spec_net_arpu_key(cluster@, known_keys@.map_values(|s: String| s@)) is None,
        },
{
    let raw = chars_of(cluster);
    let trimmed = string_of_chars(trim_chars(raw.as_slice()).as_slice());
    let upper = to_uppercase(trimmed.as_str());
    net_arpu_key_of_upper(upper.as_str(), known_keys)
}

/// The net-ARPU assumption key of `upper`, a cluster already trimmed and
/// upper-cased; `None` for a cluster outside the table.
pub fn net_arpu_key_of_upper(upper: &str, known_keys: &[String]) -> (r: Option<String>)
    ensures
        match r {
            Some(k) => spec_net_arpu_key_of_upper(upper@, known_keys@.map_values(|s: String| s@)) == Some(k@),
            None => spec_net_arpu_key_of_upper(upper@, known_keys@.map_values(|s: String| s@)) is None,
        },
{
    let is_pk = str_contains(upper, "PK");
    let upper_chars = chars_of(upper);
    proof {
        reveal_strlit("_PK");
    }
    let base = if str_ends_with(upper, "_PK") {
        string_of_chars(take_chars(upper_chars.as_slice(), upper_chars.len() - 3).as_slice())
    } else {
        String::from_str(upper)
    };
    assert(base@ == spec_cluster_base(upper@));
    let map = profile_arpu_map();
    match lookup_str(map.as_slice(), base.as_str()) {
        None => None,
        Some(key) => {
            if is_pk {
                let mut pk_key = String::from_str(key);
                pk_key.append("_PK");
                if contains_key(known_keys, pk_key.as_str()) {
                    return Some(pk_key);
                }
            }
            Some(String::from_str(key))
        },
    }
}


// ── Cash-flow schedule ─────────────────────────────────────────

/// The contract length used for the schedule: 24, 30 and 36 months are kept,
/// any other length counts as 30.
pub open spec fn spec_normalize_duration(d: u32) -> u32 {
    if d == 24 || d == 30 || d == 36 { d } else { 30 }
}

/// Monthly handset instalments between the upfront flow and the last one.
pub open spec fn spec_monthly_installments(d: u32) -> nat {
    let n = spec_normalize_duration(d);
    if n == 24 { 23 } else if n == 30 { 24 } else { 35 }
}

/// Smart-plan instalments that follow the handset instalments.
pub open spec fn spec_smart_installments(d: u32) -> nat {
    if spec_normalize_duration(d) == 30 { 5 } else { 0 }
}

/// The number of instalments over which a missing handset instalment is spread.
pub open spec fn spec_fallback_divisor(d: u32) -> nat {
    let n = spec_normalize_duration(d);
    if n == 36 { 36 } else { 24 }
}

/// The contract length used for the schedule.
pub fn normalize_duration(d: u32) -> (r: u32)
    ensures
        r == spec_normalize_duration(d),
{
    if d == 24 || d == 30 || d == 36 { d } else { 30 }
}

/// Monthly handset instalments in a schedule of duration `d`.
pub fn monthly_installments(d: u32) -> (r: u32)
    ensures
        r == spec_monthly_installments(d),
{
    let n = normalize_duration(d);
    if n == 24 { 23 } else if n == 30 { 24 } else { 35 }
}

/// Smart-plan instalments in a schedule of duration `d`.
pub fn smart_installments(d: u32) -> (r: u32)
    ensures
        r == spec_smart_installments(d),
{
    if normalize_duration(d) == 30 { 5 } else { 0 }
}

/// The divisor that derives a missing handset instalment from the financed
/// amount: 24 for the 24- and 30-month contracts, 36 for the 36-month one.
pub fn fallback_divisor(d: u32) -> (r: u32)
    ensures
        r == spec_fallback_divisor(d),
{
    if normalize_duration(d) == 36 { 36 } else { 24 }
}

/// The value at month `t` of the schedule built by `cashflow_schedule`.
pub open spec fn schedule_at<T>(cf0: T, monthly: T, smart: T, last: T, d: u32, t: int) -> T {
    let m = spec_monthly_installments(d) as int;
    let s = spec_smart_installments(d) as int;
    if t == 0 {
        cf0
    } else if t <= m {
        monthly
    } else if t <= m + s {
        smart
    } else {
        last
    }
}

/// The cash-flow schedule of a contract of duration `d`: the upfront flow,
/// the monthly handset instalments, the smart-plan instalments and the last
/// instalment, month by month.
pub fn cashflow_schedule<T: Copy>(cf0: T, monthly: T, smart: T, last: T, d: u32) -> (r: Vec<T>)
    ensures
        r@.len() == spec_monthly_installments(d) + spec_smart_installments(d) + 2,
        forall|t: int| 0 <= t < r@.len() ==> #[trigger] r@[t] == schedule_at(cf0, monthly, smart, last, d, t),
{
    let m = monthly_installments(d);
    let s = smart_installments(d);
    let mut r: Vec<T> = Vec::new();
    r.push(cf0);
    let mut i: u32 = 0;
    while i < m
        invariant
            m == spec_monthly_installments(d),
            i <= m,
            r@.len() == 1 + i,
            forall|t: int| 0 <= t < r@.len() ==> #[trigger] r@[t] == schedule_at(cf0, monthly, smart, last, d, t),
        decreases m - i,
    {
        r.push(monthly);
        i = i + 1;
    }
    let mut j: u32 = 0;
    while j < s
        invariant
            m == spec_monthly_installments(d),
            s == spec_smart_installments(d),
            j <= s,
            r@.len() == 1 + m + j,
            forall|t: int| 0 <= t < r@.len() ==> #[trigger] r@[t] == schedule_at(cf0, monthly, smart, last, d, t),
        decreases s - j,
    {
        r.push(smart);
        j = j + 1;
    }
    r.push(last);
    r
}

/// Every schedule has one flow per month of the contract plus the upfront
/// flow: 25, 31 and 37 flows for 24, 30 and 36 months.
pub proof fn lemma_schedule_length(d: u32)
    ensures
        spec_monthly_installments(d) + spec_smart_installments(d) + 2 == spec_normalize_duration(d) + 1,
{
}

// ── KPI verdict ────────────────────────────────────────────────

/// Join of `list` with `sep` between consecutive entries.
pub open spec fn seq_join(list: Seq<Seq<char>>, sep: Seq<char>) -> Seq<char>
    decreases list.len(),
{
    if list.len() == 0 {
        seq![]
    } else if list.len() == 1 {
        list[0]
    } else {
        seq_join(list.drop_last(), sep) + sep + list.last()
    }
}

/// Whether a payback month misses its target (-1 means the flows never pay back).
pub open spec fn misses_target(pb: i32, target: i32) -> bool {
    pb == -1 || pb > target
}

/// The reasons for an alert, in the order they are checked.
pub open spec fn spec_alert_reasons(npv_negative: bool, pb_pl: i32, pb_cash: i32, target_pb: i32) -> Seq<Seq<char>> {
    (if npv_negative { seq!["NPV<0"@] } else { seq![] })
    + (if misses_target(pb_pl, target_pb) { seq!["PB_P&L>target"@] } else { seq![] })
    + (if misses_target(pb_cash, target_pb) { seq!["PB_CASH>target"@] } else { seq![] })
}

/// A product-mode passes when its NPV is not negative and both paybacks meet
/// the target; otherwise it raises an alert.
pub open spec fn spec_verdict(npv_negative: bool, pb_pl: i32, pb_cash: i32, target_pb: i32) -> (Seq<char>, Seq<char>) {
    let reasons = spec_alert_reasons(npv_negative, pb_pl, pb_cash, target_pb);
    if reasons.len() == 0 {
        ("PASS"@, "OK"@)
    } else {
        ("ALERT"@, seq_join(reasons, ", "@))
    }
}

/// The per-mode keys follow the mode's family. Among the seven modes, those
/// held to the financing payback target are exactly the `FIN_` modes; a
/// `VAR_` mode earns the `COMM_VAR` commission, a `FIN_` mode `COMM_FIN` and
/// a `RELOAD_` mode `COMM_RPLUS`; and the annual rate is `RATE_COMPASS` for
/// the Compass-financed modes (FIN_COMPASS, RELOAD_COMP), `RATE_FINDO` for the
/// Findomestic ones (FIN_FINDO, RELOAD_FINDO), `BAD_DEBT_RID` for VAR_RID and
/// `BAD_DEBT_CC` for the card-paid VAR_CC and RELOAD_CC.
pub proof fn lemma_mode_family_keys(i: int)
    requires
        0 <= i < 7,
    ensures
        ({
            let m = mode_name_at(i);
            &&& (spec_payback_group(m) == PaybackGroup::Fin) <==> spec_starts_with(m, "FIN_"@)
            &&& spec_starts_with(m, "VAR_"@) ==> spec_commission_key(m) == "COMM_VAR"@
            &&& spec_starts_with(m, "FIN_"@) ==> spec_commission_key(m) == "COMM_FIN"@
            &&& spec_starts_with(m, "RELOAD_"@) ==> spec_commission_key(m) == "COMM_RPLUS"@
            &&& (spec_starts_with(m, "VAR_"@) || spec_starts_with(m, "FIN_"@) || spec_starts_with(m, "RELOAD_"@))
            &&& (spec_rate_key(spec_rate_basis(m)) == "RATE_COMPASS"@) <==> (m == "FIN_COMPASS"@ || m == "RELOAD_COMP"@)
            &&& (spec_rate_key(spec_rate_basis(m)) == "RATE_FINDO"@) <==> (m == "FIN_FINDO"@ || m == "RELOAD_FINDO"@)
            &&& (spec_rate_key(spec_rate_basis(m)) == "BAD_DEBT_RID"@) <==> (m == "VAR_RID"@)
            &&& (spec_rate_key(spec_rate_basis(m)) == "BAD_DEBT_CC"@) <==> (m == "VAR_CC"@ || m == "RELOAD_CC"@)
        }),
{
    reveal_strlit("VAR_CC");
    reveal_strlit("VAR_RID");
    reveal_strlit("FIN_COMPASS");
    reveal_strlit("FIN_FINDO");
    reveal_strlit("RELOAD_CC");
    reveal_strlit("RELOAD_COMP");
    reveal_strlit("RELOAD_FINDO");
    reveal_strlit("VAR_");
    reveal_strlit("FIN_");
    reveal_strlit("RELOAD_");
    reveal_strlit("COMM_VAR");
    reveal_strlit("COMM_FIN");
    reveal_strlit("COMM_RPLUS");
    reveal_strlit("RATE_COMPASS");
    reveal_strlit("RATE_FINDO");
    reveal_strlit("BAD_DEBT_RID");
    reveal_strlit("BAD_DEBT_CC");
    reveal_with_fuel(table_lookup, 8);
    let m = mode_name_at(i);
    // The modes are pairwise different.
    assert("VAR_CC"@[4] != "VAR_RID"@[4]);
    assert("FIN_COMPASS"@[4] != "FIN_FINDO"@[4]);
    assert("RELOAD_CC"@[8] != "RELOAD_COMP"@[8]);
    assert("RELOAD_CC"@[7] != "RELOAD_FINDO"@[7]);
    assert("RELOAD_COMP"@[7] != "RELOAD_FINDO"@[7]);
    assert("VAR_CC"@[0] != "FIN_COMPASS"@[0] && "VAR_CC"@[0] != "RELOAD_CC"@[0]
        && "FIN_COMPASS"@[0] != "RELOAD_CC"@[0]);
    // The rate keys are pairwise different.
    assert("RATE_COMPASS"@[5] != "RATE_FINDO"@[5]);
    assert("BAD_DEBT_RID"@[9] != "BAD_DEBT_CC"@[9]);
    assert("RATE_COMPASS"@[0] != "BAD_DEBT_CC"@[0]);
    assert("RATE_FINDO"@[0] != "BAD_DEBT_CC"@[0]);
    assert("RATE_COMPASS"@[0] != "BAD_DEBT_RID"@[0]);
    assert("RATE_FINDO"@[0] != "BAD_DEBT_RID"@[0]);
    // Each mode's family prefix, and no other.
    let var_ = "VAR_"@;
    let fin_ = "FIN_"@;
    let rel_ = "RELOAD_"@;
    if i <= 1 {
        assert(m.subrange(0, 4) =~= var_);
        assert(m.subrange(0, 4) != fin_) by { assert(m.subrange(0, 4)[0] != fin_[0]); }
        assert(!spec_starts_with(m, rel_)) by {
            if rel_.len() <= m.len() {
                assert(m.subrange(0, 7)[0] != rel_[0]);
            }
        }
    } else if i <= 3 {
        assert(m.subrange(0, 4) =~= fin_);
        assert(m.subrange(0, 4) != var_) by { assert(m.subrange(0, 4)[0] != var_[0]); }
        assert(m.subrange(0, 7) != rel_) by { assert(m.subrange(0, 7)[0] != rel_[0]); }
    } else {
        assert(m.subrange(0, 7) =~= rel_);
        assert(m.subrange(0, 4) != var_) by { assert(m.subrange(0, 4)[0] != var_[0]); }
        assert(m.subrange(0, 4) != fin_) by { assert(m.subrange(0, 4)[0] != fin_[0]); }
    }
}

/// The status and the status reason of a computed product-mode.
pub fn kpi_verdict(npv_negative: bool, pb_pl: i32, pb_cash: i32, target_pb: i32) -> (r: (String, String))
    ensures
        (r.0@, r.1@) == spec_verdict(npv_negative, pb_pl, pb_cash, target_pb),
        r.0@ == "PASS"@ <==> (!npv_negative && pb_pl != -1 && pb_pl <= target_pb && pb_cash != -1
            && pb_cash <= target_pb),
{
    proof {
        reveal_strlit("PASS");
        reveal_strlit("ALERT");
    }
    let ghost reasons = spec_alert_reasons(npv_negative, pb_pl, pb_cash, target_pb);
    let mut list: Vec<&'static str> = Vec::new();
    if npv_negative {
        list.push("NPV<0");
    }
    if pb_pl == -1 || pb_pl > target_pb {
        list.push("PB_P&L>target");
    }
    if pb_cash == -1 || pb_cash > target_pb {
        list.push("PB_CASH>target");
    }
    let ghost views = list@.map_values(|e: &str| e@);
    assert(views =~= reasons);
    if list.len() == 0 {
        return (String::from_str("PASS"), String::from_str("OK"));
    }
    let mut reason = String::new();
    let mut i: usize = 0;
    while i < list.len()
        invariant
            views == list@.map_values(|e: &str| e@),
            i <= list@.len(),
            list@.len() >= 1,
            i == 0 ==> reason@ == Seq::<char>::empty(),
            i > 0 ==> reason@ == seq_join(views.take(i as int), ", "@),
        decreases list@.len() - i,
    {
        if i > 0 {
            reason.append(", ");
        }
        reason.append(list[i]);
        proof {
            let t = views.take(i + 1);
            assert(t.drop_last() =~= views.take(i as int));
            assert(t.last() == views[i as int]);
            if i == 0 {
                assert(seq_join(t, ", "@) == t[0]);
            }
        }
        i = i + 1;
    }
    assert(views.take(list@.len() as int) =~= views);
    let alert = String::from_str("ALERT");
    proof {
        reveal_strlit("ALERT");
        reveal_strlit("PASS");
        assert(alert@ != "PASS"@) by {
            assert(alert@[0] != "PASS"@[0]);
        }
    }
    (alert, reason)
}

/// A product-mode passes exactly when its NPV is not negative and both
/// paybacks were reached (not -1) no later than the target month; a pass
/// reads `OK`, anything else is an alert. Each alert reason is present
/// exactly when its condition holds: `NPV<0` for a negative NPV, and
/// `PB_P&L>target` / `PB_CASH>target` for a payback that was never reached or
/// comes after the target. In particular paybacks between 0 and the target
/// never raise a payback reason.
pub proof fn lemma_verdict_against_target(npv_negative: bool, pb_pl: i32, pb_cash: i32, target_pb: i32)
    ensures
        spec_verdict(npv_negative, pb_pl, pb_cash, target_pb).0 == "PASS"@
            <==> (!npv_negative && pb_pl != -1 && pb_pl <= target_pb && pb_cash != -1 && pb_cash <= target_pb),
        spec_verdict(npv_negative, pb_pl, pb_cash, target_pb).0 == "PASS"@
            ==> spec_verdict(npv_negative, pb_pl, pb_cash, target_pb).1 == "OK"@,
        spec_verdict(npv_negative, pb_pl, pb_cash, target_pb).0 != "PASS"@
            ==> spec_verdict(npv_negative, pb_pl, pb_cash, target_pb).0 == "ALERT"@,
        spec_alert_reasons(npv_negative, pb_pl, pb_cash, target_pb).contains("NPV<0"@) <==> npv_negative,
        spec_alert_reasons(npv_negative, pb_pl, pb_cash, target_pb).contains("PB_P&L>target"@)
            <==> (pb_pl == -1 || pb_pl > target_pb),
        spec_alert_reasons(npv_negative, pb_pl, pb_cash, target_pb).contains("PB_CASH>target"@)
            <==> (pb_cash == -1 || pb_cash > target_pb),
        (!npv_negative && 0 <= pb_pl <= target_pb && 0 <= pb_cash <= target_pb)
            ==> spec_verdict(npv_negative, pb_pl, pb_cash, target_pb) == ("PASS"@, "OK"@),
{
    reveal_strlit("PASS");
    reveal_strlit("ALERT");
    reveal_strlit("NPV<0");
    reveal_strlit("PB_P&L>target");
    reveal_strlit("PB_CASH>target");
    assert("ALERT"@[0] != "PASS"@[0]);
    let a = npv_negative;
    let b = pb_pl == -1 || pb_pl > target_pb;
    let c = pb_cash == -1 || pb_cash > target_pb;
    let r = spec_alert_reasons(npv_negative, pb_pl, pb_cash, target_pb);
    let sa: Seq<Seq<char>> = if a { seq!["NPV<0"@] } else { seq![] };
    let sb: Seq<Seq<char>> = if b { seq!["PB_P&L>target"@] } else { seq![] };
    let sc: Seq<Seq<char>> = if c { seq!["PB_CASH>target"@] } else { seq![] };
    assert(r == sa + sb + sc);
    assert(r.len() == 0 <==> (!a && !b && !c));
    if a {
        assert(r[0] == "NPV<0"@);
    }
    if b {
        assert(r[sa.len() as int] == "PB_P&L>target"@);
    }
    if c {
        assert(r[(sa.len() + sb.len()) as int] == "PB_CASH>target"@);
    }
    assert forall|i: int| 0 <= i < r.len() implies
        (r[i] == "NPV<0"@ ==> a) && (r[i] == "PB_P&L>target"@ ==> b) && (r[i] == "PB_CASH>target"@ ==> c) by {
        if i < sa.len() {
            assert(r[i] == "NPV<0"@);
        } else if i < sa.len() + sb.len() {
            assert(r[i] == "PB_P&L>target"@);
        } else {
            assert(r[i] == "PB_CASH>target"@);
        }
    }
}

/// The status and reason of a product-mode whose transfer price or fascia is
/// not set: no KPI is computed for it.
pub fn missing_data_verdict() -> (r: (String, String))
    ensures
        r.0@ == "MISSING_DATA"@,
        r.1@ == "TP o fascia non impostati"@,
{
    (String::from_str("MISSING_DATA"), String::from_str("TP o fascia non impostati"))
}


// ── Number text ────────────────────────────────────────────────

/// Text that stands for a missing number.
pub open spec fn is_missing_marker(t: Seq<char>) -> bool {
    t.len() == 0 || t == "nan"@ || t == "NaN"@ || t == "None"@ || t == "(vuoto)"@
}

/// `s` with every `c` removed.
pub open spec fn without_char(s: Seq<char>, c: char) -> Seq<char>
    decreases s.len(),
{
    if s.len() == 0 {
        seq![]
    } else if s.last() == c {
        without_char(s.drop_last(), c)
    } else {
        without_char(s.drop_last(), c).push(s.last())
    }
}

/// `s` with every `from` replaced by `to`.
pub open spec fn replace_char(s: Seq<char>, from: char, to: char) -> Seq<char> {
    s.map_values(|x: char| if x == from { to } else { x })
}

/// Index of the last `c` in `s`, or -1.
pub open spec fn last_index(s: Seq<char>, c: char) -> int
    decreases s.len(),
{
    if s.len() == 0 {
        -1
    } else if s.last() == c {
        s.len() - 1
    } else {
        last_index(s.drop_last(), c)
    }
}

/// The text of a number ready for parsing, or `None` when the cell stands for
/// a missing value. The text is trimmed; when it holds both `,` and `.`, the
/// later of the two is the decimal separator and the other one, a thousands
/// separator, is dropped (Italian `1.234,56` becomes `1234.56`, English
/// `1,234.56` becomes `1234.56`); a lone `,` is a decimal comma.
pub open spec fn spec_number_text(value: Seq<char>) -> Option<Seq<char>> {
    let t = spec_trim(value);
    if is_missing_marker(t) {
        None
    } else if t.contains(',') && t.contains('.') {
        if last_index(t, ',') > last_index(t, '.') {
            Some(replace_char(without_char(t, '.'), ',', '.'))
        } else {
            Some(without_char(t, ','))
        }
    } else if t.contains(',') {
        Some(replace_char(t, ',', '.'))
    } else {
        Some(t)
    }
}

fn remove_char(s: &[char], c: char) -> (r: Vec<char>)
    ensures
        r@ == without_char(s@, c),
{
    let mut r: Vec<char> = Vec::new();
    let mut i: usize = 0;
    while i < s.len()
        invariant
            i <= s@.len(),
            r@ == without_char(s@.take(i as int), c),
        decreases s@.len() - i,
    {
        proof {
            let t = s@.take(i + 1);
            assert(t.drop_last() =~= s@.take(i as int));
            assert(t.last() == s@[i as int]);
        }
        if s[i] != c {
            r.push(s[i]);
        }
        i = i + 1;
    }
    assert(s@.take(s@.len() as int) =~= s@);
    r
}

fn replace_chars(s: &[char], from: char, to: char) -> (r: Vec<char>)
    ensures
        r@ == replace_char(s@, from, to),
{
    let mut r: Vec<char> = Vec::new();
    let mut i: usize = 0;
    while i < s.len()
        invariant
            i <= s@.len(),
            r@ == replace_char(s@.take(i as int), from, to),
        decreases s@.len() - i,
    {
        if s[i] == from {
            r.push(to);
        } else {
            r.push(s[i]);
        }
        i = i + 1;
        assert(r@ =~= replace_char(s@.take(i as int), from, to));
    }
    assert(s@.take(s@.len() as int) =~= s@);
    r
}

fn find_last(s: &[char], c: char) -> (r: Option<usize>)
    ensures
        match r {
            Some(i) => last_index(s@, c) == i as int,
            None => last_index(s@, c) == -1,
        },
        r is Some <==> s@.contains(c),
{
    let mut i: usize = s.len();
    assert(s@.take(i as int) =~= s@);
    while i > 0
        invariant
            i <= s@.len(),
            last_index(s@, c) == last_index(s@.take(i as int), c),
            forall|k: int| i <= k < s@.len() ==> s@[k] != c,
        decreases i,
    {
        proof {
            let t = s@.take(i as int);
            assert(t.drop_last() =~= s@.take(i - 1));
            assert(t.last() == s@[i - 1]);
        }
        if s[i - 1] == c {
            return Some(i - 1);
        }
        i = i - 1;
    }
    assert(s@.take(0).len() == 0);
    assert(!s@.contains(c)) by {
        assert forall|k: int| 0 <= k < s@.len() implies s@[k] != c by {}
    }
    None
}

/// The text of a number ready for parsing, or `None` for a missing value.
pub fn number_text(value: &str) -> (r: Option<String>)
    ensures
        match r {
            Some(t) => spec_number_text(value@) == Some(t@),
            None => spec_number_text(value@) is None,
        },
{
    let raw = chars_of(value);
    let t = trim_chars(raw.as_slice());
    let ts = t.as_slice();
    let nan = chars_of("nan");
    let nan2 = chars_of("NaN");
    let none = chars_of("None");
    let vuoto = chars_of("(vuoto)");
    if t.len() == 0 || crate::text::chars_eq(ts, nan.as_slice())
        || crate::text::chars_eq(ts, nan2.as_slice())
        || crate::text::chars_eq(ts, none.as_slice())
        || crate::text::chars_eq(ts, vuoto.as_slice()) {
        return None;
    }
    let comma = find_last(ts, ',');
    let dot = find_last(ts, '.');
    let cleaned = match (comma, dot) {
        (Some(c), Some(d)) => {
            if c > d {
                let no_dots = remove_char(ts, '.');
                replace_chars(no_dots.as_slice(), ',', '.')
            } else {
                remove_char(ts, ',')
            }
        },
        (Some(_), None) => replace_chars(ts, ',', '.'),
        _ => t.clone(),
    };
    Some(string_of_chars(cleaned.as_slice()))
}


proof fn lemma_without_char_absent(s: Seq<char>, c: char)
    ensures
        !without_char(s, c).contains(c),
    decreases s.len(),
{
    if s.len() > 0 {
        lemma_without_char_absent(s.drop_last(), c);
        let w = without_char(s.drop_last(), c);
        if s.last() != c {
            assert forall|i: int| 0 <= i < w.push(s.last()).len() implies w.push(s.last())[i] != c by {
                if i < w.len() {
                    assert(w.push(s.last())[i] == w[i]);
                }
            }
        }
    }
}

proof fn lemma_replace_char_absent(s: Seq<char>, from: char, to: char)
    requires
        from != to,
    ensures
        !replace_char(s, from, to).contains(from),
{
    let r = replace_char(s, from, to);
    assert forall|i: int| 0 <= i < r.len() implies r[i] != from by {}
}

/// Normalised number text never holds a comma: a decimal comma becomes a
/// point and a thousands comma is dropped.
pub proof fn lemma_number_text_has_no_comma(value: Seq<char>)
    ensures
        spec_number_text(value) matches Some(t) ==> !t.contains(','),
{
    let t = spec_trim(value);
    lemma_without_char_absent(t, ',');
    lemma_without_char_absent(t, '.');
    lemma_replace_char_absent(t, ',', '.');
    lemma_replace_char_absent(without_char(t, '.'), ',', '.');
}


/// Every mode carries exactly one credit-risk charge: the financed modes a
/// financing cost on the rate spread and no bad-debt adjustment, all other
/// modes a bad-debt adjustment and no financing cost.
pub proof fn lemma_one_risk_charge_per_mode(i: int)
    requires
        0 <= i < 7,
    ensures
        (table_lookup(spec_bad_debt_mode_table(), mode_name_at(i)) is Some)
            != (triple_lookup(spec_fin_rate_table(), mode_name_at(i)) is Some),
{
    reveal_strlit("VAR_CC");
    reveal_strlit("VAR_RID");
    reveal_strlit("FIN_COMPASS");
    reveal_strlit("FIN_FINDO");
    reveal_strlit("RELOAD_CC");
    reveal_strlit("RELOAD_COMP");
    reveal_strlit("RELOAD_FINDO");
    let m = mode_name_at(i);
    let bd = spec_bad_debt_mode_table();
    let fin = spec_fin_rate_table();
    let bd1 = bd.drop_first();
    let bd2 = bd1.drop_first();
    let bd3 = bd2.drop_first();
    let bd4 = bd3.drop_first();
    let bd5 = bd4.drop_first();
    let fin1 = fin.drop_first();
    let fin2 = fin1.drop_first();
    assert(bd5.len() == 0);
    assert(fin2.len() == 0);
    assert(bd[0].0 == "VAR_RID"@ && bd1[0].0 == "VAR_CC"@ && bd2[0].0 == "RELOAD_CC"@
        && bd3[0].0 == "RELOAD_COMP"@ && bd4[0].0 == "RELOAD_FINDO"@);
    assert(fin[0].0 == "FIN_COMPASS"@ && fin1[0].0 == "FIN_FINDO"@);
    let in_bd = m == "VAR_RID"@ || m == "VAR_CC"@ || m == "RELOAD_CC"@ || m == "RELOAD_COMP"@ || m == "RELOAD_FINDO"@;
    let in_fin = m == "FIN_COMPASS"@ || m == "FIN_FINDO"@;
    assert(table_lookup(bd5, m) is None);
    assert(table_lookup(bd4, m) is Some <==> m == "RELOAD_FINDO"@);
    assert(table_lookup(bd3, m) is Some <==> (m == "RELOAD_COMP"@ || m == "RELOAD_FINDO"@));
    assert(table_lookup(bd2, m) is Some <==> (m == "RELOAD_CC"@ || m == "RELOAD_COMP"@ || m == "RELOAD_FINDO"@));
    assert(table_lookup(bd1, m) is Some <==> (m == "VAR_CC"@ || m == "RELOAD_CC"@ || m == "RELOAD_COMP"@ || m == "RELOAD_FINDO"@));
    assert(table_lookup(bd, m) is Some <==> in_bd);
    assert(triple_lookup(fin2, m) is None);
    assert(triple_lookup(fin1, m) is Some <==> m == "FIN_FINDO"@);
    assert(triple_lookup(fin, m) is Some <==> in_fin);
    assert("FIN_FINDO"@[0] != "RELOAD_CC"@[0]);
    assert("FIN_COMPASS"@[0] != "RELOAD_COMP"@[0]);
    assert("FIN_FINDO"@ != "RELOAD_CC"@);
    assert("FIN_COMPASS"@ != "RELOAD_COMP"@);
    assert(in_bd != in_fin);
}

} // verus!
