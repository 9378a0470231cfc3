//! Version snapshots of the engine state: their records, their identifiers
//! and their listing order. Reading and writing the archive lives with the
//! program.

use vstd::prelude::*;
use crate::text::{chars_of, seq_lt, str_lt, lemma_seq_lt_irreflexive, lemma_seq_lt_total, lemma_seq_lt_transitive};

verus! {

/// A saved snapshot of the products and assumptions, as JSON text.
#[derive(Clone, Debug, PartialEq, Eq)]
pub struct Version {
    pub id: String,
    pub label: String,
    pub timestamp: String,
    pub approved: bool,
    pub products_json: String,
    pub assumptions_json: String,
}

/// The listing entry of a saved version.
#[derive(Clone, Debug, PartialEq, Eq)]
pub struct VersionInfo {
    pub id: String,
    pub label: String,
    pub timestamp: String,
    pub approved: bool,
}

impl Version {
    /// The listing entry of this version.
    pub fn info(&self) -> (r: VersionInfo)
        ensures
            r.id@ == self.id@,
            r.label@ == self.label@,
            r.timestamp@ == self.timestamp@,
            r.approved == self.approved,
    {
        VersionInfo {
            id: self.id.clone(),
            label: self.label.clone(),
            timestamp: self.timestamp.clone(),
            approved: self.approved,
        }
    }

    /// Marks this version as approved, leaving the rest of it unchanged.
    pub fn approve(&mut self)
        ensures
            final(self).approved,
            final(self).id == old(self).id,
            final(self).label == old(self).label,
            final(self).timestamp == old(self).timestamp,
            final(self).products_json == old(self).products_json,
            final(self).assumptions_json == old(self).assumptions_json,
    {
        self.approved = true;
    }
}

/// A decimal digit.
pub open spec fn is_digit(c: char) -> bool {
    '0' <= c && c <= '9'
}

/// The characters of `s` from `a` up to `b` are all digits.
pub open spec fn digits_between(s: Seq<char>, a: int, b: int) -> bool {
    forall|i: int| a <= i < b ==> is_digit(#[trigger] s[i])
}

/// A compact UTC timestamp `<year><MMDD>T<HHMMSS>Z`, whose year is four
/// digits, or `+` and at least five digits beyond year 9999.
pub open spec fn is_compact_utc_timestamp(s: Seq<char>) -> bool {
    let n = s.len();
    &&& n >= 16
    &&& s[n - 1] == 'Z'
    &&& s[n - 8] == 'T'
    &&& digits_between(s, n - 12, n - 8)
    &&& digits_between(s, n - 7, n - 1)
    &&& ((n == 16 && digits_between(s, 0, 4)) || (n >= 18 && s[0] == '+' && digits_between(s, 1, n - 12)))
}

/// A lower-case hexadecimal digit.
pub open spec fn is_lower_hex(c: char) -> bool {
    ('0' <= c && c <= '9') || ('a' <= c && c <= 'f')
}

/// The compact UTC timestamp pattern of version snapshots.
pub open spec fn timestamp_pattern() -> Seq<char> {
    "%Y%m%dT%H%M%SZ"@
}

/// The current UTC time written by `chrono` as `Utc::now().format(pattern)`.
/// The pattern admitted here is the compact one of version snapshots, which
/// chrono writes as the year (four digits from 1970 on, or `+` and five or
/// more beyond 9999), month, day, `T`, hour, minute, second, each zero-padded
/// to two digits, and `Z`. `Utc::now` panics when the system clock reads
/// before 1970; no argument can rule that out. What time it is is not stated.
#[verifier::external_body]
fn utc_now_formatted(pattern: &str) -> (s: String)
    requires
        pattern@ == timestamp_pattern(),
    ensures
        is_compact_utc_timestamp(s@),
{
    chrono::Utc::now().format(pattern).to_string()
}

/// The simple form of a version-4 UUID: 32 lower-case hexadecimal digits,
/// the version digit `4` at position 12 and the variant digit (`8`, `9`, `a`
/// or `b`) at position 16.
pub open spec fn is_simple_v4_uuid(u: Seq<char>) -> bool {
    &&& u.len() == 32
    &&& forall|i: int| 0 <= i < u.len() ==> is_lower_hex(#[trigger] u[i])
    &&& u[12] == '4'
    &&& (u[16] == '8' || u[16] == '9' || u[16] == 'a' || u[16] == 'b')
}

/// A fresh random version-4 UUID written by `uuid` in its simple form
/// (`Uuid::new_v4().as_simple()`): random bits with the version and variant
/// bits set, as 32 lower-case hexadecimal digits. `new_v4` panics only when
/// the system's random source fails. Which UUID comes out is not stated.
#[verifier::external_body]
fn new_uuid_simple() -> (s: String)
    ensures
        is_simple_v4_uuid(s@),
{
    uuid::Uuid::new_v4().as_simple().to_string()
}

/// The identifier of a version: `v-`, the first fifteen characters of its
/// timestamp (date and time to the second), `-` and a UUID.
pub open spec fn spec_version_id(timestamp: Seq<char>, uuid: Seq<char>) -> Seq<char> {
    "v-"@ + timestamp.subrange(0, 15) + "-"@ + uuid
}

/// Creates and lists version snapshots; the archive files live with the program.
pub struct VersionManager;

impl VersionManager {
    /// The identifier of a version taken at `timestamp` with UUID `uuid`.
    pub fn version_id(timestamp: &str, uuid: &str) -> (r: String)
        requires
            timestamp@.len() >= 15,
        ensures
            r@ == spec_version_id(timestamp@, uuid@),
    {
        let ts = chars_of(timestamp);
        let mut s = String::from_str("v-");
        let mut i: usize = 0;
        while i < 15
            invariant
                ts@ == timestamp@,
                ts@.len() >= 15,
                i <= 15,
                s@ == "v-"@ + timestamp@.subrange(0, i as int),
            decreases 15 - i,
        {
            crate::text::push_char(&mut s, ts[i]);
            i = i + 1;
            assert(s@ =~= "v-"@ + timestamp@.subrange(0, i as int));
        }
        s.append("-");
        s.append(uuid);
        s
    }

    /// The name of the archive file of a version.
    pub fn file_name(id: &str) -> (r: String)
        ensures
            r@ == id@ + ".json"@,
    {
        let mut s = String::from_str(id);
        s.append(".json");
        s
    }

    /// A new, not yet approved version of the given state, stamped with the
    /// current UTC time and a fresh UUID.
    pub fn new_version(label: &str, products_json: String, assumptions_json: String) -> (r: Version)
        ensures
            r.label@ == label@,
            !r.approved,
            r.products_json == products_json,
            r.assumptions_json == assumptions_json,
            is_compact_utc_timestamp(r.timestamp@),
            exists|u: Seq<char>| is_simple_v4_uuid(u) && r.id@ == spec_version_id(r.timestamp@, u),
    {
        let timestamp = utc_now_formatted("%Y%m%dT%H%M%SZ");
        let uuid = new_uuid_simple();
        let id = Self::version_id(timestamp.as_str(), uuid.as_str());
        Version {
            id,
            label: String::from_str(label),
            timestamp,
            approved: false,
            products_json,
            assumptions_json,
        }
    }
}


/// Timestamps never increase along `r`.
pub open spec fn newest_first_order(r: Seq<VersionInfo>) -> bool {
    forall|i: int, j: int| 0 <= i < j < r.len() ==> !seq_lt(#[trigger] r[i].timestamp@, #[trigger] r[j].timestamp@)
}

/// `r` lists the entries of `v`, entry `k` of `r` being entry `p[k]` of `v`
/// and every entry appearing once, newest timestamp first, and entries with
/// equal timestamps keep their order in `v`.
pub open spec fn stable_newest_first(v: Seq<VersionInfo>, r: Seq<VersionInfo>, p: Seq<int>) -> bool {
    &&& r.len() == v.len()
    &&& p.len() == v.len()
    &&& forall|k: int| 0 <= k < p.len() ==> 0 <= #[trigger] p[k] < v.len() && r[k] == v[p[k]]
    &&& forall|k1: int, k2: int| 0 <= k1 < k2 < p.len() ==> #[trigger] p[k1] != #[trigger] p[k2]
    &&& newest_first_order(r)
    &&& forall|i: int, j: int|
        0 <= i < j < r.len() && (#[trigger] r[i]).timestamp@ == (#[trigger] r[j]).timestamp@ ==> p[i] < p[j]
}

impl VersionManager {
    /// Orders version entries newest first by timestamp; entries with equal
    /// timestamps keep their relative order.
    pub fn sort_newest_first(versions: Vec<VersionInfo>) -> (r: Vec<VersionInfo>)
        ensures
            exists|p: Seq<int>| stable_newest_first(versions@, r@, p),
    {
        let ghost orig = versions@;
        let mut v = versions;
        let mut r: Vec<VersionInfo> = Vec::new();
        let ghost mut p: Seq<int> = Seq::empty();
        while v.len() > 0
            invariant
                v@ == orig.take(v@.len() as int),
                v@.len() <= orig.len(),
                r@.len() + v@.len() == orig.len(),
                p.len() == r@.len(),
                forall|k: int| 0 <= k < p.len() ==> v@.len() <= #[trigger] p[k] < orig.len() && r@[k] == orig[p[k]],
                forall|k1: int, k2: int| 0 <= k1 < k2 < p.len() ==> #[trigger] p[k1] != #[trigger] p[k2],
                newest_first_order(r@),
                forall|i: int, j: int|
                    0 <= i < j < r@.len() && (#[trigger] r@[i]).timestamp@ == (#[trigger] r@[j]).timestamp@ ==> p[i] < p[j],
            decreases v@.len(),
        {
            let ghost idx = (v@.len() - 1) as int;
            let x = v.pop().unwrap();
            assert(x == orig[idx]);
            let mut q: usize = 0;
            while q < r.len() && str_lt(x.timestamp.as_str(), r[q].timestamp.as_str())
                invariant
                    q <= r@.len(),
                    forall|a: int| 0 <= a < q ==> seq_lt(x.timestamp@, #[trigger] r@[a].timestamp@),
                decreases r@.len() - q,
            {
                q = q + 1;
            }
            let ghost old_r = r@;
            let ghost old_p = p;
            let ghost xt = x.timestamp@;
            r.insert(q, x);
            proof {
                p = old_p.insert(q as int, idx);
                let nr = r@;
                assert(nr == old_r.insert(q as int, x));
                assert forall|k: int| 0 <= k < p.len() implies v@.len() <= #[trigger] p[k] < orig.len() && nr[k] == orig[p[k]] by {
                    if k < q {
                        assert(p[k] == old_p[k]);
                        assert(nr[k] == old_r[k]);
                    } else if k == q {
                    } else {
                        assert(p[k] == old_p[k - 1]);
                        assert(nr[k] == old_r[k - 1]);
                    }
                }
                assert forall|k1: int, k2: int| 0 <= k1 < k2 < p.len() implies #[trigger] p[k1] != #[trigger] p[k2] by {
                    let o1 = if k1 < q { k1 } else { k1 - 1 };
                    let o2 = if k2 < q { k2 } else { k2 - 1 };
                    if k1 != q && k2 != q {
                        assert(p[k1] == old_p[o1]);
                        assert(p[k2] == old_p[o2]);
                    } else if k1 == q {
                        assert(p[k2] == old_p[o2]);
                    } else {
                        assert(p[k1] == old_p[o1]);
                    }
                }
                // Everything after the insertion point is no newer than x.
                assert forall|b: int| q <= b < old_r.len() implies !seq_lt(xt, #[trigger] old_r[b].timestamp@) by {
                    let rq = old_r[q as int].timestamp@;
                    if b > q {
                        assert(!seq_lt(rq, old_r[b].timestamp@));
                    }
                    lemma_seq_lt_total(xt, rq);
                    if seq_lt(xt, old_r[b].timestamp@) {
                        if xt == rq {
                        } else {
                            assert(seq_lt(rq, xt));
                            lemma_seq_lt_transitive(rq, xt, old_r[b].timestamp@);
                        }
                    }
                }
                assert forall|i: int, j: int| 0 <= i < j < nr.len() implies !seq_lt(#[trigger] nr[i].timestamp@, #[trigger] nr[j].timestamp@) by {
                    if i < q && j < q {
                        assert(nr[i] == old_r[i] && nr[j] == old_r[j]);
                    } else if i < q && j == q {
                        assert(nr[i] == old_r[i]);
                        lemma_seq_lt_total(xt, old_r[i].timestamp@);
                    } else if i < q && j > q {
                        assert(nr[i] == old_r[i] && nr[j] == old_r[j - 1]);
                    } else if i == q {
                        assert(nr[j] == old_r[j - 1]);
                    } else {
                        assert(nr[i] == old_r[i - 1] && nr[j] == old_r[j - 1]);
                    }
                }
                assert forall|i: int, j: int|
                    0 <= i < j < nr.len() && (#[trigger] nr[i]).timestamp@ == (#[trigger] nr[j]).timestamp@ implies p[i] < p[j] by {
                    if i < q && j < q {
                        assert(nr[i] == old_r[i] && nr[j] == old_r[j]);
                        assert(p[i] == old_p[i] && p[j] == old_p[j]);
                    } else if i < q && j == q {
                        assert(nr[i] == old_r[i]);
                        lemma_seq_lt_irreflexive(xt);
                    } else if i < q && j > q {
                        assert(nr[i] == old_r[i] && nr[j] == old_r[j - 1]);
                        assert(p[i] == old_p[i] && p[j] == old_p[j - 1]);
                    } else if i == q {
                        assert(p[j] == old_p[j - 1]);
                    } else {
                        assert(nr[i] == old_r[i - 1] && nr[j] == old_r[j - 1]);
                        assert(p[i] == old_p[i - 1] && p[j] == old_p[j - 1]);
                    }
                }
                assert(v@ =~= orig.take(v@.len() as int));
            }
        }
        assert(stable_newest_first(orig, r@, p));
        r
    }
}

} // verus!
