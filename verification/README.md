# tid — CVM pricing cockpit

The pricing cockpit computes, for every product and each of seven sales
modes, the NPV, payback and risk charges of a handset offer, serves them to a
browser over HTTP and exports them as Excel workbooks with live formulas.

## Layout

- `src/` — the verified library (Verus): everything in the cockpit that is
  decided without floating-point arithmetic.
  - `engine/types.rs` — the seven modes and the column layout of the product sheet.
  - `engine/economics.rs` — which assumption feeds which KPI of a mode, the
    cluster → net-ARPU key, the cash-flow schedule layout, the KPI verdict and
    the normalisation of number text.
  - `engine/formula.rs` — Excel formula text of the exported KPIs, column letters.
  - `engine/data.rs` — A1 cell references and the ASSUMPTIONS sheet layout.
  - `engine/pricing.rs` — edit dispatch and the compliance tally.
  - `engine/versioning.rs` — version records, identifiers, newest-first order.
  - `engine/churn.rs`, `api/`, `paths.rs` — churn-curve length, approval
    labels, which uploads are accepted and the name they are stored under,
    the data-directory layout and the input override order.
  - `export/writer.rs` — row layout and formulas of the CASHFLOWS, KPI and
    CASHFLOW_SUMMARY sheets.
  - `text.rs` — character-level string helpers with exact contracts.
- `app/` — the program around the library: the HTTP server, workbook reading
  and writing, the version archive on disk, and all floating-point KPI
  arithmetic (NPV, paybacks, bad debt, financing cost, churn NPV).
- `tests/` — tests of the library.
