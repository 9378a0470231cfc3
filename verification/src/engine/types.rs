//! Modes, the product sheet's column layout and table look-ups.

use vstd::prelude::*;
use crate::text::str_eq;

verus! {

/// A table of string pairs, taken by its views.
pub open spec fn pairs_view(t: Seq<(&str, &str)>) -> Seq<(Seq<char>, Seq<char>)> {
    t.map_values(|e: (&str, &str)| (e.0@, e.1@))
}

/// The value paired with the first entry whose key is `key`.
pub open spec fn table_lookup(t: Seq<(Seq<char>, Seq<char>)>, key: Seq<char>) -> Option<Seq<char>>
    decreases t.len(),
{
    if t.len() == 0 {
        None
    } else if t[0].0 == key {
        Some(t[0].1)
    } else {
        table_lookup(t.drop_first(), key)
    }
}

/// Looks `key` up in a table of string pairs: the value of the first entry
/// whose key equals `key`.
pub fn lookup_str<'a>(map: &[(&'a str, &'a str)], key: &str) -> (r: Option<&'a str>)
    ensures
        match r {
            Some(v) => table_lookup(pairs_view(map@), key@) == Some(v@),
            None => table_lookup(pairs_view(map@), key@) is None,
        },
{
    let mut i: usize = 0;
    assert(pairs_view(map@).skip(0) =~= pairs_view(map@));
    while i < map.len()
        invariant
            i <= map@.len(),
            table_lookup(pairs_view(map@), key@) == table_lookup(pairs_view(map@).skip(i as int), key@),
        decreases map@.len() - i,
    {
        let ghost rest = pairs_view(map@).skip(i as int);
        assert(rest[0] == (map@[i as int].0@, map@[i as int].1@));
        if str_eq(map[i].0, key) {
            return Some(map[i].1);
        }
        assert(rest.drop_first() =~= pairs_view(map@).skip(i + 1));
        i = i + 1;
    }
    assert(pairs_view(map@).skip(i as int).len() == 0);
    None
}

/// The seven pricing modes, in the order in which sheets and reports list them.
pub const MODES: [&'static str; 7] = [
    "VAR_CC",
    "VAR_RID",
    "FIN_COMPASS",
    "FIN_FINDO",
    "RELOAD_CC",
    "RELOAD_COMP",
    "RELOAD_FINDO",
];

/// The name of the `i`-th mode of `MODES`.
pub open spec fn mode_name_at(i: int) -> Seq<char> {
    if i == 0 { "VAR_CC"@ }
    else if i == 1 { "VAR_RID"@ }
    else if i == 2 { "FIN_COMPASS"@ }
    else if i == 3 { "FIN_FINDO"@ }
    else if i == 4 { "RELOAD_CC"@ }
    else if i == 5 { "RELOAD_COMP"@ }
    else { "RELOAD_FINDO"@ }
}

/// Position of `mode` in `MODES`, if it is one of them.
pub open spec fn mode_position(mode: Seq<char>) -> Option<int> {
    if mode == mode_name_at(0) { Some(0) }
    else if mode == mode_name_at(1) { Some(1) }
    else if mode == mode_name_at(2) { Some(2) }
    else if mode == mode_name_at(3) { Some(3) }
    else if mode == mode_name_at(4) { Some(4) }
    else if mode == mode_name_at(5) { Some(5) }
    else if mode == mode_name_at(6) { Some(6) }
    else { None }
}

/// First column (0-indexed) of the `i`-th mode's block in the LISTINO_CVM sheet.
pub open spec fn mode_base_column(i: int) -> nat {
    if i == 0 { 26 }
    else if i == 1 { 52 }
    else if i == 2 { 78 }
    else if i == 3 { 110 }
    else if i == 4 { 142 }
    else if i == 5 { 171 }
    else { 200 }
}

/// The `k`-th pricing field of a mode block; it sits `k` columns after the block start.
pub open spec fn field_name_at(k: int) -> Seq<char> {
    if k == 0 { "status"@ }
    else if k == 1 { "fascia"@ }
    else if k == 2 { "anticipo"@ }
    else if k == 3 { "importo_smart"@ }
    else if k == 4 { "sconto_tariffa"@ }
    else if k == 5 { "rata_hs"@ }
    else if k == 6 { "rata_smart"@ }
    else { "ultima_rata"@ }
}

/// The `k`-th baseline KPI of a mode block.
pub open spec fn kpi_name_at(k: int) -> Seq<char> {
    if k == 0 { "pb_pl"@ } else if k == 1 { "npv"@ } else { "pb_cash"@ }
}

/// Distance of the `k`-th baseline KPI column from the block start.
pub open spec fn kpi_offset_at(k: int) -> nat {
    if k == 0 { 17 } else if k == 1 { 18 } else { 23 }
}

/// Position of `field` among the pricing fields, if it is one of them.
pub open spec fn field_position(field: Seq<char>) -> Option<int> {
    if field == field_name_at(0) { Some(0) }
    else if field == field_name_at(1) { Some(1) }
    else if field == field_name_at(2) { Some(2) }
    else if field == field_name_at(3) { Some(3) }
    else if field == field_name_at(4) { Some(4) }
    else if field == field_name_at(5) { Some(5) }
    else if field == field_name_at(6) { Some(6) }
    else if field == field_name_at(7) { Some(7) }
    else { None }
}

/// Position of `kpi` among the baseline KPIs, if it is one of them.
pub open spec fn kpi_position(kpi: Seq<char>) -> Option<int> {
    if kpi == kpi_name_at(0) { Some(0) }
    else if kpi == kpi_name_at(1) { Some(1) }
    else if kpi == kpi_name_at(2) { Some(2) }
    else { None }
}

fn mode_name(i: usize) -> (r: &'static str)
    requires
        i < 7,
    ensures
        r@ == mode_name_at(i as int),
{
    if i == 0 { "VAR_CC" }
    else if i == 1 { "VAR_RID" }
    else if i == 2 { "FIN_COMPASS" }
    else if i == 3 { "FIN_FINDO" }
    else if i == 4 { "RELOAD_CC" }
    else if i == 5 { "RELOAD_COMP" }
    else { "RELOAD_FINDO" }
}

fn mode_base(i: usize) -> (r: usize)
    requires
        i < 7,
    ensures
        r == mode_base_column(i as int),
{
    if i == 0 { 26 }
    else if i == 1 { 52 }
    else if i == 2 { 78 }
    else if i == 3 { 110 }
    else if i == 4 { 142 }
    else if i == 5 { 171 }
    else { 200 }
}

fn field_name(k: usize) -> (r: &'static str)
    requires
        k < 8,
    ensures
        r@ == field_name_at(k as int),
{
    if k == 0 { "status" }
    else if k == 1 { "fascia" }
    else if k == 2 { "anticipo" }
    else if k == 3 { "importo_smart" }
    else if k == 4 { "sconto_tariffa" }
    else if k == 5 { "rata_hs" }
    else if k == 6 { "rata_smart" }
    else { "ultima_rata" }
}

fn kpi_name(k: usize) -> (r: &'static str)
    requires
        k < 3,
    ensures
        r@ == kpi_name_at(k as int),
{
    if k == 0 { "pb_pl" } else if k == 1 { "npv" } else { "pb_cash" }
}

fn kpi_offset(k: usize) -> (r: usize)
    requires
        k < 3,
    ensures
        r == kpi_offset_at(k as int),
{
    if k == 0 { 17 } else if k == 1 { 18 } else { 23 }
}

/// Position of `mode` in `MODES`.
pub fn mode_index(mode: &str) -> (r: Option<usize>)
    ensures
        match r {
            Some(i) => mode_position(mode@) == Some(i as int),
            None => mode_position(mode@) is None,
        },
{
    let mut i: usize = 0;
    while i < 7
        invariant
            i <= 7,
            forall|j: int| 0 <= j < i ==> mode@ != mode_name_at(j),
        decreases 7 - i,
    {
        if str_eq(mode, mode_name(i)) {
            return Some(i);
        }
        i = i + 1;
    }
    None
}

fn field_index(field: &str) -> (r: Option<usize>)
    ensures
        match r {
            Some(k) => field_position(field@) == Some(k as int),
            None => field_position(field@) is None,
        },
{
    let mut k: usize = 0;
    while k < 8
        invariant
            k <= 8,
            forall|j: int| 0 <= j < k ==> field@ != field_name_at(j),
        decreases 8 - k,
    {
        if str_eq(field, field_name(k)) {
            return Some(k);
        }
        k = k + 1;
    }
    None
}

fn kpi_index(kpi: &str) -> (r: Option<usize>)
    ensures
        match r {
            Some(k) => kpi_position(kpi@) == Some(k as int),
            None => kpi_position(kpi@) is None,
        },
{
    let mut k: usize = 0;
    while k < 3
        invariant
            k <= 3,
            forall|j: int| 0 <= j < k ==> kpi@ != kpi_name_at(j),
        decreases 3 - k,
    {
        if str_eq(kpi, kpi_name(k)) {
            return Some(k);
        }
        k = k + 1;
    }
    None
}

/// Column of `field` of `mode` in the LISTINO_CVM sheet.
pub open spec fn spec_mode_column(mode: Seq<char>, field: Seq<char>) -> Option<nat> {
    match (mode_position(mode), field_position(field)) {
        (Some(i), Some(k)) => Some(mode_base_column(i) + k as nat),
        _ => None,
    }
}

/// Column of baseline KPI `kpi` of `mode` in the LISTINO_CVM sheet.
pub open spec fn spec_kpi_column(mode: Seq<char>, kpi: Seq<char>) -> Option<nat> {
    match (mode_position(mode), kpi_position(kpi)) {
        (Some(i), Some(k)) => Some(mode_base_column(i) + kpi_offset_at(k)),
        _ => None,
    }
}

/// The (0-indexed) column that holds `field` of `mode`, if both are known.
pub fn mode_column(mode: &str, field: &str) -> (r: Option<usize>)
    ensures
        match r {
            Some(c) => spec_mode_column(mode@, field@) == Some(c as nat),
            None => spec_mode_column(mode@, field@) is None,
        },
{
    match (mode_index(mode), field_index(field)) {
        (Some(i), Some(k)) => Some(mode_base(i) + k),
        _ => None,
    }
}

/// The (0-indexed) column that holds baseline KPI `kpi` of `mode`, if both are known.
pub fn kpi_column(mode: &str, kpi: &str) -> (r: Option<usize>)
    ensures
        match r {
            Some(c) => spec_kpi_column(mode@, kpi@) == Some(c as nat),
            None => spec_kpi_column(mode@, kpi@) is None,
        },
{
    match (mode_index(mode), kpi_index(kpi)) {
        (Some(i), Some(k)) => Some(mode_base(i) + kpi_offset(k)),
        _ => None,
    }
}

/// The column map of every mode: for each mode of `MODES`, in order, its
/// eight pricing fields with their 0-indexed columns.
pub fn mode_column_map() -> (r: Vec<(&'static str, Vec<(&'static str, usize)>)>)
    ensures
        r@.len() == 7,
        forall|i: int| 0 <= i < 7 ==> {
            &&& (#[trigger] r@[i]).0@ == mode_name_at(i)
            &&& r@[i].1@.len() == 8
            &&& forall|k: int| 0 <= k < 8 ==> {
                &&& (#[trigger] r@[i].1@[k]).0@ == field_name_at(k)
                &&& r@[i].1@[k].1 == mode_base_column(i) + k
            }
        },
{
    let mut map: Vec<(&'static str, Vec<(&'static str, usize)>)> = Vec::new();
    let mut i: usize = 0;
    while i < 7
        invariant
            i <= 7,
            map@.len() == i,
            forall|j: int| 0 <= j < i ==> {
                &&& (#[trigger] map@[j]).0@ == mode_name_at(j)
                &&& map@[j].1@.len() == 8
                &&& forall|k: int| 0 <= k < 8 ==> {
                    &&& (#[trigger] map@[j].1@[k]).0@ == field_name_at(k)
                    &&& map@[j].1@[k].1 == mode_base_column(j) + k
                }
            },
        decreases 7 - i,
    {
        let base = mode_base(i);
        let mut cols: Vec<(&'static str, usize)> = Vec::new();
        let mut k: usize = 0;
        while k < 8
            invariant
                i < 7,
                k <= 8,
                base == mode_base_column(i as int),
                cols@.len() == k,
                forall|m: int| 0 <= m < k ==> {
                    &&& (#[trigger] cols@[m]).0@ == field_name_at(m)
                    &&& cols@[m].1 == base + m
                },
            decreases 8 - k,
        {
            cols.push((field_name(k), base + k));
            k = k + 1;
        }
        map.push((mode_name(i), cols));
        i = i + 1;
    }
    map
}

/// The baseline KPI column map of every mode: for each mode of `MODES`, in
/// order, `pb_pl`, `npv` and `pb_cash` with their 0-indexed columns.
pub fn kpi_column_map() -> (r: Vec<(&'static str, Vec<(&'static str, usize)>)>)
    ensures
        r@.len() == 7,
        forall|i: int| 0 <= i < 7 ==> {
            &&& (#[trigger] r@[i]).0@ == mode_name_at(i)
            &&& r@[i].1@.len() == 3
            &&& forall|k: int| 0 <= k < 3 ==> {
                &&& (#[trigger] r@[i].1@[k]).0@ == kpi_name_at(k)
                &&& r@[i].1@[k].1 == mode_base_column(i) + kpi_offset_at(k)
            }
        },
{
    let mut map: Vec<(&'static str, Vec<(&'static str, usize)>)> = Vec::new();
    let mut i: usize = 0;
    while i < 7
        invariant
            i <= 7,
            map@.len() == i,
            forall|j: int| 0 <= j < i ==> {
                &&& (#[trigger] map@[j]).0@ == mode_name_at(j)
                &&& map@[j].1@.len() == 3
                &&& forall|k: int| 0 <= k < 3 ==> {
                    &&& (#[trigger] map@[j].1@[k]).0@ == kpi_name_at(k)
                    &&& map@[j].1@[k].1 == mode_base_column(j) + kpi_offset_at(k)
                }
            },
        decreases 7 - i,
    {
        let base = mode_base(i);
        let mut cols: Vec<(&'static str, usize)> = Vec::new();
        let mut k: usize = 0;
        while k < 3
            invariant
                i < 7,
                k <= 3,
                base == mode_base_column(i as int),
                cols@.len() == k,
                forall|m: int| 0 <= m < k ==> {
                    &&& (#[trigger] cols@[m]).0@ == kpi_name_at(m)
                    &&& cols@[m].1 == base + kpi_offset_at(m)
                },
            decreases 3 - k,
        {
            cols.push((kpi_name(k), base + kpi_offset(k)));
            k = k + 1;
        }
        map.push((mode_name(i), cols));
        i = i + 1;
    }
    map
}


proof fn lemma_mode_base_bounds(i: int)
    requires
        0 <= i < 7,
    ensures
        i < 6 ==> mode_base_column(i) + 26 <= mode_base_column(i + 1),
        mode_base_column(0) <= mode_base_column(i),
{
}

/// No two cells of a product row are read for two different things: the
/// pricing fields and the baseline KPIs of all seven modes sit in pairwise
/// different columns.
pub proof fn lemma_sheet_columns_distinct(i1: int, i2: int, a: int, b: int, kpi_a: bool, kpi_b: bool)
    requires
        0 <= i1 < 7,
        0 <= i2 < 7,
        0 <= a < (if kpi_a { 3int } else { 8int }),
        0 <= b < (if kpi_b { 3int } else { 8int }),
        (i1, a, kpi_a) != (i2, b, kpi_b),
    ensures
        mode_base_column(i1) + (if kpi_a { kpi_offset_at(a) as int } else { a })
            != mode_base_column(i2) + (if kpi_b { kpi_offset_at(b) as int } else { b }),
{
    if i1 != i2 {
        let lo = if i1 < i2 { i1 } else { i2 };
        let hi = if i1 < i2 { i2 } else { i1 };
        assert(mode_base_column(lo) + 26 <= mode_base_column(hi)) by {
            if hi == lo + 1 {
                lemma_mode_base_bounds(lo);
            } else {
                assert(mode_base_column(lo) + 26 <= mode_base_column(hi));
            }
        }
    }
}


/// The LISTINO_CVM product sheet's layout, as data: the block of each mode
/// starts at its own column (VAR_CC 26, VAR_RID 52, FIN_COMPASS 78, FIN_FINDO
/// 110, RELOAD_CC 142, RELOAD_COMP 171, RELOAD_FINDO 200); status, fascia,
/// anticipo, importo_smart, sconto_tariffa, rata_hs, rata_smart and
/// ultima_rata follow in that order from the block start, and the baseline
/// pb_pl, npv and pb_cash sit 17, 18 and 23 columns after it.
pub proof fn lemma_listino_layout(i: int)
    requires
        0 <= i < 7,
    ensures
        ({
            let (m, b) = if i == 0 { ("VAR_CC"@, 26int) }
                else if i == 1 { ("VAR_RID"@, 52int) }
                else if i == 2 { ("FIN_COMPASS"@, 78int) }
                else if i == 3 { ("FIN_FINDO"@, 110int) }
                else if i == 4 { ("RELOAD_CC"@, 142int) }
                else if i == 5 { ("RELOAD_COMP"@, 171int) }
                else { ("RELOAD_FINDO"@, 200int) };
            &&& spec_mode_column(m, "status"@) == Some(b as nat)
            &&& spec_mode_column(m, "fascia"@) == Some((b + 1) as nat)
            &&& spec_mode_column(m, "anticipo"@) == Some((b + 2) as nat)
            &&& spec_mode_column(m, "importo_smart"@) == Some((b + 3) as nat)
            &&& spec_mode_column(m, "sconto_tariffa"@) == Some((b + 4) as nat)
            &&& spec_mode_column(m, "rata_hs"@) == Some((b + 5) as nat)
            &&& spec_mode_column(m, "rata_smart"@) == Some((b + 6) as nat)
            &&& spec_mode_column(m, "ultima_rata"@) == Some((b + 7) as nat)
            &&& spec_kpi_column(m, "pb_pl"@) == Some((b + 17) as nat)
            &&& spec_kpi_column(m, "npv"@) == Some((b + 18) as nat)
            &&& spec_kpi_column(m, "pb_cash"@) == Some((b + 23) as nat)
        }),
{
    reveal_strlit("VAR_CC");
    reveal_strlit("VAR_RID");
    reveal_strlit("FIN_COMPASS");
    reveal_strlit("FIN_FINDO");
    reveal_strlit("RELOAD_CC");
    reveal_strlit("RELOAD_COMP");
    reveal_strlit("RELOAD_FINDO");
    reveal_strlit("status");
    reveal_strlit("fascia");
    reveal_strlit("anticipo");
    reveal_strlit("importo_smart");
    reveal_strlit("sconto_tariffa");
    reveal_strlit("rata_hs");
    reveal_strlit("rata_smart");
    reveal_strlit("ultima_rata");
    reveal_strlit("pb_pl");
    reveal_strlit("npv");
    reveal_strlit("pb_cash");
    // Modes differ from one another.
    assert("VAR_CC"@[4] != "VAR_RID"@[4]);
    assert("FIN_COMPASS"@[4] != "FIN_FINDO"@[4]);
    assert("RELOAD_CC"@[8] != "RELOAD_COMP"@[8]);
    assert("RELOAD_CC"@[7] != "RELOAD_FINDO"@[7]);
    assert("RELOAD_COMP"@[7] != "RELOAD_FINDO"@[7]);
    assert("VAR_CC"@[0] != "FIN_COMPASS"@[0] && "VAR_CC"@[0] != "RELOAD_CC"@[0]
        && "FIN_COMPASS"@[0] != "RELOAD_CC"@[0]);
    assert("VAR_RID"@[0] != "FIN_COMPASS"@[0] && "VAR_RID"@[0] != "RELOAD_CC"@[0]);
    assert("FIN_FINDO"@[0] != "VAR_CC"@[0] && "FIN_FINDO"@[0] != "RELOAD_CC"@[0]);
    // Fields differ from one another.
    assert("status"@[1] != "sconto_tariffa"@[1]);
    assert("rata_hs"@[5] != "rata_smart"@[5]);
    assert("status"@[0] != "fascia"@[0] && "status"@[0] != "anticipo"@[0] && "status"@[0] != "importo_smart"@[0]
        && "status"@[0] != "rata_hs"@[0] && "status"@[0] != "ultima_rata"@[0]);
    assert("fascia"@[0] != "anticipo"@[0] && "fascia"@[0] != "importo_smart"@[0] && "fascia"@[0] != "sconto_tariffa"@[0]
        && "fascia"@[0] != "rata_hs"@[0] && "fascia"@[0] != "ultima_rata"@[0]);
    assert("anticipo"@[0] != "importo_smart"@[0] && "anticipo"@[0] != "sconto_tariffa"@[0]
        && "anticipo"@[0] != "rata_hs"@[0] && "anticipo"@[0] != "ultima_rata"@[0]);
    assert("importo_smart"@[0] != "sconto_tariffa"@[0] && "importo_smart"@[0] != "rata_hs"@[0]
        && "importo_smart"@[0] != "ultima_rata"@[0]);
    assert("sconto_tariffa"@[0] != "rata_hs"@[0] && "sconto_tariffa"@[0] != "ultima_rata"@[0]);
    assert("rata_hs"@[0] != "ultima_rata"@[0] && "rata_smart"@[0] != "ultima_rata"@[0]);
    // Baseline KPIs differ from one another.
    assert("pb_pl"@[3] != "pb_cash"@[3]);
    assert("npv"@[0] != "pb_pl"@[0]);
}

/// `MODES` lists the modes in the order of `mode_name_at`.
pub proof fn lemma_modes_order(i: int)
    requires
        0 <= i < 7,
    ensures
        MODES@[i]@ == mode_name_at(i),
{
}

} // verus!
