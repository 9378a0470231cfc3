//! Naming of uploaded workbooks.

use vstd::prelude::*;
use crate::text::{chars_of, spec_contains, spec_ends_with, str_contains, str_ends_with, string_of_chars};

verus! {

/// A path separator, on any platform.
pub open spec fn is_path_separator(c: char) -> bool {
    c == '/' || c == '\\'
}

/// The last component of a path: what follows its last separator.
pub open spec fn base_name(s: Seq<char>) -> Seq<char>
    decreases s.len(),
{
    if s.len() == 0 {
        s
    } else if is_path_separator(s.last()) {
        Seq::empty()
    } else {
        base_name(s.drop_last()).push(s.last())
    }
}

/// A workbook of an accepted kind: `.xlsx` or `.xlsb`.
pub open spec fn is_workbook_name(filename: Seq<char>) -> bool {
    spec_ends_with(filename, ".xlsx"@) || spec_ends_with(filename, ".xlsb"@)
}

/// The message of a refused upload.
pub open spec fn spec_refused_upload_message(filename: Seq<char>) -> Seq<char> {
    "Only .xlsx and .xlsb files can be uploaded: "@ + filename
}

/// The name under which an uploaded file is stored in the inputs directory,
/// or the refusal of a file that is not a workbook. An ECONOMICS or FASCE
/// workbook, or a binary or plain output workbook, replaces the factory file
/// of its kind; any other workbook is stored under its last path component
/// with `_UPLOADED` put before its extension.
pub open spec fn spec_upload_target(filename: Seq<char>) -> Result<Seq<char>, Seq<char>> {
    if !is_workbook_name(filename) {
        Err(spec_refused_upload_message(filename))
    } else if spec_contains(filename, "ECONOMICS"@) {
        Ok("Listino_CVM_ECONOMICS_UPLOADED.xlsx"@)
    } else if spec_contains(filename, "FASCE"@) {
        Ok("Listino_CVM_FASCE_UPLOADED.xlsx"@)
    } else if spec_ends_with(filename, ".xlsb"@) {
        Ok("output_TI_CVM_UPLOADED.xlsb"@)
    } else if spec_contains(filename, "output"@) || spec_contains(filename, "TI_CVM"@) {
        Ok("output_TI_CVM_UPLOADED.xlsx"@)
    } else {
        let b = base_name(filename);
        Ok(b.subrange(0, b.len() - 5) + "_UPLOADED"@ + b.subrange(b.len() - 5, b.len() as int))
    }
}

proof fn lemma_base_name(s: Seq<char>)
    ensures
        base_name(s).len() <= s.len(),
        base_name(s) == s.subrange(s.len() - base_name(s).len(), s.len() as int),
        forall|i: int| 0 <= i < base_name(s).len() ==> !is_path_separator(#[trigger] base_name(s)[i]),
    decreases s.len(),
{
    if s.len() > 0 && !is_path_separator(s.last()) {
        let p = s.drop_last();
        lemma_base_name(p);
        let b = base_name(s);
        assert(b =~= s.subrange(s.len() - b.len(), s.len() as int));
        assert forall|i: int| 0 <= i < b.len() implies !is_path_separator(#[trigger] b[i]) by {
            if i < b.len() - 1 {
                assert(b[i] == base_name(p)[i]);
            }
        }
    }
}

/// A name that ends with a five-character extension free of separators keeps
/// that extension in its last path component.
proof fn lemma_base_name_keeps_extension(s: Seq<char>)
    requires
        s.len() >= 5,
        forall|i: int| s.len() - 5 <= i < s.len() ==> !is_path_separator(#[trigger] s[i]),
    ensures
        base_name(s).len() >= 5,
        base_name(s).subrange(base_name(s).len() - 5, base_name(s).len() as int)
            == s.subrange(s.len() - 5, s.len() as int),
{
    lemma_base_name_tail(s, 5);
}

/// When the last `k` characters hold no separator, the last component ends
/// with them.
proof fn lemma_base_name_tail(s: Seq<char>, k: int)
    requires
        0 <= k <= s.len(),
        forall|i: int| s.len() - k <= i < s.len() ==> !is_path_separator(#[trigger] s[i]),
    ensures
        base_name(s).len() >= k,
        base_name(s).subrange(base_name(s).len() - k, base_name(s).len() as int)
            == s.subrange(s.len() - k, s.len() as int),
    decreases k,
{
    if k > 0 {
        let p = s.drop_last();
        assert forall|i: int| p.len() - (k - 1) <= i < p.len() implies !is_path_separator(#[trigger] p[i]) by {
            assert(p[i] == s[i]);
        }
        lemma_base_name_tail(p, k - 1);
        assert(!is_path_separator(s[s.len() - 1]));
        let b = base_name(s);
        let bp = base_name(p);
        assert(b == bp.push(s.last()));
        assert(b.subrange(b.len() - k, b.len() as int) =~= bp.subrange(bp.len() - (k - 1), bp.len() as int).push(s.last()));
        assert(s.subrange(s.len() - k, s.len() as int) =~= p.subrange(p.len() - (k - 1), p.len() as int).push(s.last()));
    } else {
        assert(base_name(s).subrange(base_name(s).len() - k, base_name(s).len() as int) =~= Seq::<char>::empty());
        assert(s.subrange(s.len() - k, s.len() as int) =~= Seq::<char>::empty());
    }
}

/// The last path component of `v`.
fn base_name_chars(v: &[char]) -> (r: Vec<char>)
    ensures
        r@ == base_name(v@),
{
    let n = v.len();
    let mut i: usize = n;
    assert(v@.take(n as int) =~= v@);
    assert(base_name(v@) =~= base_name(v@.take(n as int)) + v@.subrange(n as int, n as int));
    while i > 0 && !(v[i - 1] == '/' || v[i - 1] == '\\')
        invariant
            n == v@.len(),
            i <= n,
            base_name(v@) == base_name(v@.take(i as int)) + v@.subrange(i as int, n as int),
        decreases i,
    {
        let ghost t = v@.take(i as int);
        assert(t.drop_last() =~= v@.take(i - 1));
        assert(t.last() == v@[i - 1]);
        assert(v@.subrange(i - 1, n as int) =~= seq![v@[i - 1]] + v@.subrange(i as int, n as int));
        assert(base_name(t) == base_name(v@.take(i - 1)).push(v@[i - 1]));
        assert(base_name(v@.take(i - 1)).push(v@[i - 1]) + v@.subrange(i as int, n as int)
            =~= base_name(v@.take(i - 1)) + v@.subrange(i - 1, n as int));
        i = i - 1;
    }
    if i > 0 {
        let ghost t = v@.take(i as int);
        assert(t.last() == v@[i - 1]);
        assert(base_name(t) == Seq::<char>::empty());
    } else {
        assert(v@.take(0) =~= Seq::<char>::empty());
    }
    assert(base_name(v@) =~= v@.subrange(i as int, n as int));
    let mut r: Vec<char> = Vec::new();
    let mut k: usize = i;
    while k < n
        invariant
            n == v@.len(),
            i <= k <= n,
            r@ == v@.subrange(i as int, k as int),
        decreases n - k,
    {
        r.push(v[k]);
        k = k + 1;
        assert(r@ =~= v@.subrange(i as int, k as int));
    }
    r
}

/// The name under which the uploaded file `filename` is stored, or the
/// message refusing it.
pub fn upload_target_name(filename: &str) -> (r: Result<String, String>)
    ensures
        match r {
            Ok(name) => spec_upload_target(filename@) == Ok::<Seq<char>, Seq<char>>(name@),
            Err(m) => spec_upload_target(filename@) == Err::<Seq<char>, Seq<char>>(m@),
        },
{
    let is_xlsx = str_ends_with(filename, ".xlsx");
    let is_xlsb = str_ends_with(filename, ".xlsb");
    if !is_xlsx && !is_xlsb {
        let mut m = String::from_str("Only .xlsx and .xlsb files can be uploaded: ");
        m.append(filename);
        return Err(m);
    }
    if str_contains(filename, "ECONOMICS") {
        Ok(String::from_str("Listino_CVM_ECONOMICS_UPLOADED.xlsx"))
    } else if str_contains(filename, "FASCE") {
        Ok(String::from_str("Listino_CVM_FASCE_UPLOADED.xlsx"))
    } else if is_xlsb {
        Ok(String::from_str("output_TI_CVM_UPLOADED.xlsb"))
    } else if str_contains(filename, "output") || str_contains(filename, "TI_CVM") {
        Ok(String::from_str("output_TI_CVM_UPLOADED.xlsx"))
    } else {
        let v = chars_of(filename);
        proof {
            reveal_strlit(".xlsx");
            let s = filename@;
            assert(s.subrange(s.len() - 5, s.len() as int) == ".xlsx"@);
            assert forall|i: int| s.len() - 5 <= i < s.len() implies !is_path_separator(#[trigger] s[i]) by {
                assert(s[i] == s.subrange(s.len() - 5, s.len() as int)[i - (s.len() - 5)]);
            }
            lemma_base_name_keeps_extension(s);
        }
        let b = base_name_chars(v.as_slice());
        let cut = b.len() - 5;
        let mut stem: Vec<char> = Vec::new();
        let mut k: usize = 0;
        while k < cut
            invariant
                cut == b@.len() - 5,
                k <= cut,
                stem@ == b@.subrange(0, k as int),
            decreases cut - k,
        {
            stem.push(b[k]);
            k = k + 1;
            assert(stem@ =~= b@.subrange(0, k as int));
        }
        let mut name = string_of_chars(stem.as_slice());
        name.append("_UPLOADED");
        name.append(".xlsx");
        proof {
            assert(b@.subrange(b@.len() - 5, b@.len() as int) == ".xlsx"@);
        }
        Ok(name)
    }
}

/// Which name an upload is stored under, by what its name contains: any file
/// that is not a `.xlsx` or `.xlsb` workbook is refused; a workbook naming
/// ECONOMICS replaces the economics workbook, else one naming FASCE the bands
/// workbook; any other `.xlsb` replaces the binary output workbook, and any
/// other `.xlsx` naming `TI_CVM` or `output` replaces the plain output
/// workbook.
pub proof fn lemma_upload_kinds(filename: Seq<char>)
    ensures
        !spec_ends_with(filename, ".xlsx"@) && !spec_ends_with(filename, ".xlsb"@)
            ==> spec_upload_target(filename) is Err,
        (spec_ends_with(filename, ".xlsx"@) || spec_ends_with(filename, ".xlsb"@))
            && spec_contains(filename, "ECONOMICS"@)
            ==> spec_upload_target(filename) == Ok::<Seq<char>, Seq<char>>("Listino_CVM_ECONOMICS_UPLOADED.xlsx"@),
        (spec_ends_with(filename, ".xlsx"@) || spec_ends_with(filename, ".xlsb"@))
            && !spec_contains(filename, "ECONOMICS"@) && spec_contains(filename, "FASCE"@)
            ==> spec_upload_target(filename) == Ok::<Seq<char>, Seq<char>>("Listino_CVM_FASCE_UPLOADED.xlsx"@),
        spec_ends_with(filename, ".xlsb"@) && !spec_contains(filename, "ECONOMICS"@)
            && !spec_contains(filename, "FASCE"@)
            ==> spec_upload_target(filename) == Ok::<Seq<char>, Seq<char>>("output_TI_CVM_UPLOADED.xlsb"@),
        spec_ends_with(filename, ".xlsx"@) && !spec_contains(filename, "ECONOMICS"@)
            && !spec_contains(filename, "FASCE"@)
            && (spec_contains(filename, "TI_CVM"@) || spec_contains(filename, "output"@))
            ==> spec_upload_target(filename) == Ok::<Seq<char>, Seq<char>>("output_TI_CVM_UPLOADED.xlsx"@),
{
    reveal_strlit(".xlsx");
    reveal_strlit(".xlsb");
    if spec_ends_with(filename, ".xlsx"@) && spec_ends_with(filename, ".xlsb"@) {
        let t = filename.subrange(filename.len() - 5, filename.len() as int);
        assert(t[4] == ".xlsx"@[4]);
        assert(t[4] == ".xlsb"@[4]);
        assert(false);
    }
}

/// An accepted upload is always stored directly inside the inputs directory
/// under an `_UPLOADED` workbook name: the stored name holds no path
/// separator and ends with `_UPLOADED.xlsx` or `_UPLOADED.xlsb`.
pub proof fn lemma_upload_target_is_local(filename: Seq<char>)
    requires
        spec_upload_target(filename) is Ok,
    ensures
        ({
            let name = spec_upload_target(filename)->Ok_0;
            &&& forall|i: int| 0 <= i < name.len() ==> !is_path_separator(#[trigger] name[i])
            &&& spec_ends_with(name, "_UPLOADED.xlsx"@) || spec_ends_with(name, "_UPLOADED.xlsb"@)
        }),
{
    reveal_strlit(".xlsx");
    reveal_strlit(".xlsb");
    reveal_strlit("_UPLOADED");
    reveal_strlit("_UPLOADED.xlsx");
    reveal_strlit("_UPLOADED.xlsb");
    reveal_strlit("Listino_CVM_ECONOMICS_UPLOADED.xlsx");
    reveal_strlit("Listino_CVM_FASCE_UPLOADED.xlsx");
    reveal_strlit("output_TI_CVM_UPLOADED.xlsb");
    reveal_strlit("output_TI_CVM_UPLOADED.xlsx");
    let name = spec_upload_target(filename)->Ok_0;
    if !spec_contains(filename, "ECONOMICS"@) && !spec_contains(filename, "FASCE"@)
        && !spec_ends_with(filename, ".xlsb"@)
        && !(spec_contains(filename, "output"@) || spec_contains(filename, "TI_CVM"@)) {
        let s = filename;
        assert(spec_ends_with(s, ".xlsx"@));
        assert forall|i: int| s.len() - 5 <= i < s.len() implies !is_path_separator(#[trigger] s[i]) by {
            assert(s[i] == s.subrange(s.len() - 5, s.len() as int)[i - (s.len() - 5)]);
        }
        lemma_base_name_keeps_extension(s);
        lemma_base_name(s);
        let b = base_name(s);
        let stem = b.subrange(0, b.len() - 5);
        assert(name == stem + "_UPLOADED"@ + b.subrange(b.len() - 5, b.len() as int));
        assert(name.subrange(name.len() - 14, name.len() as int) =~= "_UPLOADED.xlsx"@);
        assert forall|i: int| 0 <= i < name.len() implies !is_path_separator(#[trigger] name[i]) by {
            if i < stem.len() {
                assert(name[i] == b[i]);
            } else if i < stem.len() + 9 {
                assert(name[i] == "_UPLOADED"@[i - stem.len()]);
            } else {
                assert(name[i] == b[i - 9]);
            }
        }
    } else {
        assert(name.subrange(name.len() - 14, name.len() as int) =~= "_UPLOADED.xlsx"@
            || name.subrange(name.len() - 14, name.len() as int) =~= "_UPLOADED.xlsb"@);
    }
}

} // verus!
