use tid::engine::data::{checked_parse_cell, parse_cell, parse_usize, DataManager};
use tid::engine::types::{kpi_column, kpi_column_map, lookup_str, mode_column, mode_column_map, mode_index};

#[test]
fn test_parse_cell_basic() {
    assert_eq!(parse_cell("B4"), (3, 1));
    assert_eq!(parse_cell("A1"), (0, 0));
    assert_eq!(parse_cell("D7"), (6, 3));
    assert_eq!(parse_cell("AA10"), (9, 26));
}

#[test]
fn test_parse_cell_lowercase_and_plus() {
    // lower-case letters count by their distance from 'A'
    assert_eq!(parse_cell("a1"), (0, 32));
    assert_eq!(parse_cell("B+5"), (4, 1));
}

#[test]
fn test_parse_cell_unreadable_row_is_first() {
    assert_eq!(parse_cell("C"), (0, 2));
    assert_eq!(parse_cell("C-3"), (0, 2));
}

#[test]
fn test_checked_parse_cell() {
    assert_eq!(checked_parse_cell("B31"), Some((30, 1)));
    assert_eq!(checked_parse_cell("42"), None);
    assert_eq!(checked_parse_cell("B0"), None);
    assert_eq!(checked_parse_cell(""), None);
}

#[test]
fn test_assumption_cells_all_readable() {
    let cells = DataManager::assumption_cells();
    assert_eq!(cells.len(), 28);
    assert_eq!(cells[0], ("WACC_CC", "B5"));
    assert_eq!(cells[27], ("TARGET_PB_FIN", "B31"));
    for (_, r) in cells {
        assert!(checked_parse_cell(r).is_some());
    }
}

#[test]
fn test_parse_usize() {
    let s: Vec<char> = "+0042".chars().collect();
    assert_eq!(parse_usize(&s), Some(42));
    let s: Vec<char> = "".chars().collect();
    assert_eq!(parse_usize(&s), None);
    let s: Vec<char> = "+".chars().collect();
    assert_eq!(parse_usize(&s), None);
    let s: Vec<char> = "1a".chars().collect();
    assert_eq!(parse_usize(&s), None);
    let s: Vec<char> = "99999999999999999999999".chars().collect();
    assert_eq!(parse_usize(&s), None);
}

#[test]
fn test_mode_column_map() {
    let map = mode_column_map();
    assert_eq!(map.len(), 7);
    assert_eq!(map[0].0, "VAR_CC");
    assert_eq!(map[0].1[0], ("status", 26));
    assert_eq!(map[0].1[7], ("ultima_rata", 33));
    assert_eq!(map[3].0, "FIN_FINDO");
    assert_eq!(map[3].1[1], ("fascia", 111));
    assert_eq!(map[6].1[5], ("rata_hs", 205));
}

#[test]
fn test_kpi_column_map() {
    let map = kpi_column_map();
    assert_eq!(map[0].1, vec![("pb_pl", 43), ("npv", 44), ("pb_cash", 49)]);
    assert_eq!(map[5].0, "RELOAD_COMP");
    assert_eq!(map[5].1, vec![("pb_pl", 188), ("npv", 189), ("pb_cash", 194)]);
    assert_eq!(map[6].1[2], ("pb_cash", 223));
}

#[test]
fn test_column_lookups() {
    assert_eq!(mode_column("VAR_RID", "anticipo"), Some(54));
    assert_eq!(mode_column("RELOAD_CC", "ultima_rata"), Some(149));
    assert_eq!(mode_column("VAR_RID", "npv"), None);
    assert_eq!(mode_column("NOPE", "fascia"), None);
    assert_eq!(kpi_column("FIN_COMPASS", "npv"), Some(96));
    assert_eq!(kpi_column("FIN_COMPASS", "fascia"), None);
    assert_eq!(mode_index("RELOAD_FINDO"), Some(6));
    assert_eq!(mode_index("reload_findo"), None);
}

#[test]
fn test_columns_all_distinct() {
    let mut cols: Vec<usize> = Vec::new();
    for (_, fields) in mode_column_map() {
        cols.extend(fields.iter().map(|f| f.1));
    }
    for (_, kpis) in kpi_column_map() {
        cols.extend(kpis.iter().map(|k| k.1));
    }
    let n = cols.len();
    cols.sort();
    cols.dedup();
    assert_eq!(cols.len(), n);
}

#[test]
fn test_lookup_str_first_match() {
    let table = [("a", "1"), ("b", "2"), ("a", "3")];
    assert_eq!(lookup_str(&table, "a"), Some("1"));
    assert_eq!(lookup_str(&table, "b"), Some("2"));
    assert_eq!(lookup_str(&table, "c"), None);
}
