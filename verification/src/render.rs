//! Data selection and number formatting for the dashboard: ranked
//! tables, the size histogram, per-level threat counts, bandwidth bar
//! lengths, and byte formatting. Printing itself happens outside the
//! library.

use vstd::prelude::*;
use vstd::seq_lib::group_to_multiset_ensures;
use crate::record::{PacketRecord, ThreatLevel};
use crate::countmap::StrCountMap;
use crate::stats::{BandwidthPoint, ConnectionFlow, spec_sum_sizes};
use crate::strutil::{digit_char, spec_decimal, u64_string};

verus! {

broadcast use group_to_multiset_ensures;

/// Counts descend along the sequence.
pub open spec fn sorted_desc_counts(s: Seq<(String, u64)>) -> bool {
    forall|i: int, j: int| 0 <= i < j < s.len() ==> (#[trigger] s[i]).1 >= (#[trigger] s[j]).1
}

/// `idx` witnesses that `out` reorders `src` stably: a bijective index
/// map under which entries with equal counts keep their original order.
pub open spec fn stable_count_ranking(
    src: Seq<(String, u64)>,
    out: Seq<(String, u64)>,
    idx: Seq<int>,
) -> bool {
    &&& idx.len() == out.len()
    &&& out.len() == src.len()
    &&& forall|a: int|
        0 <= a < idx.len() ==> 0 <= (#[trigger] idx[a]) < src.len() && out[a] == src[idx[a]]
    &&& forall|a: int, b: int| 0 <= a < b < idx.len() ==> idx[a] != idx[b]
    &&& forall|a: int, b: int|
        0 <= a < b < idx.len() && (#[trigger] out[a]).1 == (#[trigger] out[b]).1 ==> idx[a]
            < idx[b]
}

/// Ranks count-table entries by count, highest first; ties keep their
/// first-appearance order. The result is a stable permutation of the
/// input.
pub fn rank_counts(entries: &Vec<(String, u64)>) -> (r: Vec<(String, u64)>)
    ensures
        r@.to_multiset() == entries@.to_multiset(),
        r@.len() == entries@.len(),
        sorted_desc_counts(r@),
        exists|idx: Seq<int>| stable_count_ranking(entries@, r@, idx),
{
    let mut w: Vec<(String, u64)> = Vec::new();
    let n = entries.len();
    let mut i: usize = 0;
    while i < n
        invariant
            i <= n,
            n == entries@.len(),
            w@ == entries@.take(i as int),
        decreases n - i,
    {
        w.push((entries[i].0.clone(), entries[i].1));
        proof {
            assert(w@ =~= entries@.take(i + 1));
        }
        i = i + 1;
    }
    proof {
        assert(entries@.take(n as int) =~= entries@);
    }

    let ghost mut widx: Seq<int> = Seq::new(n as nat, |t: int| t);
    let ghost mut ridx: Seq<int> = Seq::empty();
    let mut r: Vec<(String, u64)> = Vec::new();
    while w.len() > 0
        invariant
            r@.to_multiset().add(w@.to_multiset()) =~= entries@.to_multiset(),
            r@.len() + w@.len() == entries@.len(),
            sorted_desc_counts(r@),
            forall|a: int, b: int|
                0 <= a < r@.len() && 0 <= b < w@.len() ==> (#[trigger] r@[a]).1 >= (
                #[trigger] w@[b]).1,
            widx.len() == w@.len(),
            forall|b: int|
                0 <= b < w@.len() ==> 0 <= (#[trigger] widx[b]) < entries@.len() && w@[b]
                    == entries@[widx[b]],
            forall|b: int, b2: int| 0 <= b < b2 < w@.len() ==> widx[b] < widx[b2],
            ridx.len() == r@.len(),
            forall|a: int|
                0 <= a < r@.len() ==> 0 <= (#[trigger] ridx[a]) < entries@.len() && r@[a]
                    == entries@[ridx[a]],
            forall|a: int, a2: int| 0 <= a < a2 < r@.len() ==> ridx[a] != ridx[a2],
            forall|a: int, b: int|
                0 <= a < r@.len() && 0 <= b < w@.len() ==> (#[trigger] ridx[a]) != (
                #[trigger] widx[b]),
            forall|a: int, a2: int|
                0 <= a < a2 < r@.len() && (#[trigger] r@[a]).1 == (#[trigger] r@[a2]).1 ==> ridx[a]
                    < ridx[a2],
            forall|a: int, b: int|
                0 <= a < r@.len() && 0 <= b < w@.len() && (#[trigger] r@[a]).1 == (
                #[trigger] w@[b]).1 ==> ridx[a] < widx[b],
        decreases w.len(),
    {
        let m = w.len();
        let mut best: usize = 0;
        let mut j: usize = 1;
        while j < m
            invariant
                best < j <= m,
                m == w@.len(),
                forall|k: int| 0 <= k < j ==> (#[trigger] w@[k]).1 <= w@[best as int].1,
                forall|k: int| 0 <= k < best ==> (#[trigger] w@[k]).1 < w@[best as int].1,
            decreases m - j,
        {
            if w[j].1 > w[best].1 {
                best = j;
            }
            j = j + 1;
        }
        let ghost w0 = w@;
        let ghost widx0 = widx;
        let ghost ie = widx[best as int];
        let e = w.remove(best);
        r.push(e);
        proof {
            widx = widx0.remove(best as int);
            ridx = ridx.push(ie);
            assert(w@ == w0.remove(best as int));
            assert forall|b: int| 0 <= b < w@.len() implies (#[trigger] w@[b]).1 <= e.1 && widx[b]
                == if b < best {
                widx0[b]
            } else {
                widx0[b + 1]
            } by {
                if b < best {
                    assert(w@[b] == w0[b]);
                } else {
                    assert(w@[b] == w0[b + 1]);
                }
            }
            assert forall|b: int| 0 <= b < w@.len() && e.1 == (#[trigger] w@[b]).1 implies ie
                < widx[b] by {
                if b < best {
                    assert(w0[b].1 < e.1);
                } else {
                    assert(widx[b] == widx0[b + 1]);
                }
            }
            assert(r@.to_multiset().add(w@.to_multiset()) =~= entries@.to_multiset());
        }
    }
    proof {
        assert(w@.to_multiset().len() == 0);
        assert(r@.to_multiset() =~= entries@.to_multiset());
        assert(stable_count_ranking(entries@, r@, ridx));
    }
    r
}

/// Counts descend along the sequence.
pub open spec fn sorted_desc_port_counts(s: Seq<(u16, u64)>) -> bool {
    forall|i: int, j: int| 0 <= i < j < s.len() ==> (#[trigger] s[i]).1 >= (#[trigger] s[j]).1
}

/// `idx` witnesses that `out` reorders `src` stably: a bijective index
/// map under which entries with equal counts keep their original order.
pub open spec fn stable_port_ranking(
    src: Seq<(u16, u64)>,
    out: Seq<(u16, u64)>,
    idx: Seq<int>,
) -> bool {
    &&& idx.len() == out.len()
    &&& out.len() == src.len()
    &&& forall|a: int|
        0 <= a < idx.len() ==> 0 <= (#[trigger] idx[a]) < src.len() && out[a] == src[idx[a]]
    &&& forall|a: int, b: int| 0 <= a < b < idx.len() ==> idx[a] != idx[b]
    &&& forall|a: int, b: int|
        0 <= a < b < idx.len() && (#[trigger] out[a]).1 == (#[trigger] out[b]).1 ==> idx[a]
            < idx[b]
}

/// Ranks port-table entries by count, highest first; ties keep their
/// first-appearance order. The result is a stable permutation of the
/// input.
pub fn rank_ports(entries: &Vec<(u16, u64)>) -> (r: Vec<(u16, u64)>)
    ensures
        r@.to_multiset() == entries@.to_multiset(),
        r@.len() == entries@.len(),
        sorted_desc_port_counts(r@),
        exists|idx: Seq<int>| stable_port_ranking(entries@, r@, idx),
{
    let mut w: Vec<(u16, u64)> = Vec::new();
    let n = entries.len();
    let mut i: usize = 0;
    while i < n
        invariant
            i <= n,
            n == entries@.len(),
            w@ == entries@.take(i as int),
        decreases n - i,
    {
        w.push((entries[i].0, entries[i].1));
        proof {
            assert(w@ =~= entries@.take(i + 1));
        }
        i = i + 1;
    }
    proof {
        assert(entries@.take(n as int) =~= entries@);
    }

    let ghost mut widx: Seq<int> = Seq::new(n as nat, |t: int| t);
    let ghost mut ridx: Seq<int> = Seq::empty();
    let mut r: Vec<(u16, u64)> = Vec::new();
    while w.len() > 0
        invariant
            r@.to_multiset().add(w@.to_multiset()) =~= entries@.to_multiset(),
            r@.len() + w@.len() == entries@.len(),
            sorted_desc_port_counts(r@),
            forall|a: int, b: int|
                0 <= a < r@.len() && 0 <= b < w@.len() ==> (#[trigger] r@[a]).1 >= (
                #[trigger] w@[b]).1,
            widx.len() == w@.len(),
            forall|b: int|
                0 <= b < w@.len() ==> 0 <= (#[trigger] widx[b]) < entries@.len() && w@[b]
                    == entries@[widx[b]],
            forall|b: int, b2: int| 0 <= b < b2 < w@.len() ==> widx[b] < widx[b2],
            ridx.len() == r@.len(),
            forall|a: int|
                0 <= a < r@.len() ==> 0 <= (#[trigger] ridx[a]) < entries@.len() && r@[a]
                    == entries@[ridx[a]],
            forall|a: int, a2: int| 0 <= a < a2 < r@.len() ==> ridx[a] != ridx[a2],
            forall|a: int, b: int|
                0 <= a < r@.len() && 0 <= b < w@.len() ==> (#[trigger] ridx[a]) != (
                #[trigger] widx[b]),
            forall|a: int, a2: int|
                0 <= a < a2 < r@.len() && (#[trigger] r@[a]).1 == (#[trigger] r@[a2]).1 ==> ridx[a]
                    < ridx[a2],
            forall|a: int, b: int|
                0 <= a < r@.len() && 0 <= b < w@.len() && (#[trigger] r@[a]).1 == (
                #[trigger] w@[b]).1 ==> ridx[a] < widx[b],
        decreases w.len(),
    {
        let m = w.len();
        let mut best: usize = 0;
        let mut j: usize = 1;
        while j < m
            invariant
                best < j <= m,
                m == w@.len(),
                forall|k: int| 0 <= k < j ==> (#[trigger] w@[k]).1 <= w@[best as int].1,
                forall|k: int| 0 <= k < best ==> (#[trigger] w@[k]).1 < w@[best as int].1,
            decreases m - j,
        {
            if w[j].1 > w[best].1 {
                best = j;
            }
            j = j + 1;
        }
        let ghost w0 = w@;
        let ghost widx0 = widx;
        let ghost ie = widx[best as int];
        let e = w.remove(best);
        r.push(e);
        proof {
            widx = widx0.remove(best as int);
            ridx = ridx.push(ie);
            assert(w@ == w0.remove(best as int));
            assert forall|b: int| 0 <= b < w@.len() implies (#[trigger] w@[b]).1 <= e.1 && widx[b]
                == if b < best {
                widx0[b]
            } else {
                widx0[b + 1]
            } by {
                if b < best {
                    assert(w@[b] == w0[b]);
                } else {
                    assert(w@[b] == w0[b + 1]);
                }
            }
            assert forall|b: int| 0 <= b < w@.len() && e.1 == (#[trigger] w@[b]).1 implies ie
                < widx[b] by {
                if b < best {
                    assert(w0[b].1 < e.1);
                } else {
                    assert(widx[b] == widx0[b + 1]);
                }
            }
            assert(r@.to_multiset().add(w@.to_multiset()) =~= entries@.to_multiset());
        }
    }
    proof {
        assert(w@.to_multiset().len() == 0);
        assert(r@.to_multiset() =~= entries@.to_multiset());
        assert(stable_port_ranking(entries@, r@, ridx));
    }
    r
}

/// Packet counts descend along the sequence.
pub open spec fn sorted_desc_flow_counts(s: Seq<(String, ConnectionFlow)>) -> bool {
    forall|i: int, j: int|
        0 <= i < j < s.len() ==> (#[trigger] s[i]).1.packet_count >= (#[trigger] s[j]).1.packet_count
}

/// `idx` witnesses that `out` reorders `src` stably: a bijective index
/// map under which flows with equal packet counts keep their original
/// order.
pub open spec fn stable_flow_ranking(
    src: Seq<(String, ConnectionFlow)>,
    out: Seq<(String, ConnectionFlow)>,
    idx: Seq<int>,
) -> bool {
    &&& idx.len() == out.len()
    &&& out.len() == src.len()
    &&& forall|a: int|
        0 <= a < idx.len() ==> 0 <= (#[trigger] idx[a]) < src.len() && out[a] == src[idx[a]]
    &&& forall|a: int, b: int| 0 <= a < b < idx.len() ==> idx[a] != idx[b]
    &&& forall|a: int, b: int|
        0 <= a < b < idx.len() && (#[trigger] out[a]).1.packet_count == (
        #[trigger] out[b]).1.packet_count ==> idx[a] < idx[b]
}

/// Ranks connection-table entries by packet count, highest first; ties
/// keep their first-appearance order. The result is a stable
/// permutation of the input.
pub fn rank_connections(entries: &Vec<(String, ConnectionFlow)>) -> (r: Vec<
    (String, ConnectionFlow),
>)
    ensures
        r@.to_multiset() == entries@.to_multiset(),
        r@.len() == entries@.len(),
        sorted_desc_flow_counts(r@),
        exists|idx: Seq<int>| stable_flow_ranking(entries@, r@, idx),
{
    let mut w: Vec<(String, ConnectionFlow)> = Vec::new();
    let n = entries.len();
    let mut i: usize = 0;
    while i < n
        invariant
            i <= n,
            n == entries@.len(),
            w@ == entries@.take(i as int),
        decreases n - i,
    {
        w.push((entries[i].0.clone(), entries[i].1.clone_flow()));
        proof {
            assert(w@ =~= entries@.take(i + 1));
        }
        i = i + 1;
    }
    proof {
        assert(entries@.take(n as int) =~= entries@);
    }

    let ghost mut widx: Seq<int> = Seq::new(n as nat, |t: int| t);
    let ghost mut ridx: Seq<int> = Seq::empty();
    let mut r: Vec<(String, ConnectionFlow)> = Vec::new();
    while w.len() > 0
        invariant
            r@.to_multiset().add(w@.to_multiset()) =~= entries@.to_multiset(),
            r@.len() + w@.len() == entries@.len(),
            sorted_desc_flow_counts(r@),
            forall|a: int, b: int|
                0 <= a < r@.len() && 0 <= b < w@.len() ==> (#[trigger] r@[a]).1.packet_count >= (
                #[trigger] w@[b]).1.packet_count,
            widx.len() == w@.len(),
            forall|b: int|
                0 <= b < w@.len() ==> 0 <= (#[trigger] widx[b]) < entries@.len() && w@[b]
                    == entries@[widx[b]],
            forall|b: int, b2: int| 0 <= b < b2 < w@.len() ==> widx[b] < widx[b2],
            ridx.len() == r@.len(),
            forall|a: int|
                0 <= a < r@.len() ==> 0 <= (#[trigger] ridx[a]) < entries@.len() && r@[a]
                    == entries@[ridx[a]],
            forall|a: int, a2: int| 0 <= a < a2 < r@.len() ==> ridx[a] != ridx[a2],
            forall|a: int, b: int|
                0 <= a < r@.len() && 0 <= b < w@.len() ==> (#[trigger] ridx[a]) != (
                #[trigger] widx[b]),
            forall|a: int, a2: int|
                0 <= a < a2 < r@.len() && (#[trigger] r@[a]).1.packet_count == (
                #[trigger] r@[a2]).1.packet_count ==> ridx[a] < ridx[a2],
            forall|a: int, b: int|
                0 <= a < r@.len() && 0 <= b < w@.len() && (#[trigger] r@[a]).1.packet_count == (
                #[trigger] w@[b]).1.packet_count ==> ridx[a] < widx[b],
        decreases w.len(),
    {
        let m = w.len();
        let mut best: usize = 0;
        let mut j: usize = 1;
        while j < m
            invariant
                best < j <= m,
                m == w@.len(),
                forall|k: int|
                    0 <= k < j ==> (#[trigger] w@[k]).1.packet_count
                        <= w@[best as int].1.packet_count,
                forall|k: int|
                    0 <= k < best ==> (#[trigger] w@[k]).1.packet_count
                        < w@[best as int].1.packet_count,
            decreases m - j,
        {
            if w[j].1.packet_count > w[best].1.packet_count {
                best = j;
            }
            j = j + 1;
        }
        let ghost w0 = w@;
        let ghost widx0 = widx;
        let ghost ie = widx[best as int];
        let e = w.remove(best);
        r.push(e);
        proof {
            widx = widx0.remove(best as int);
            ridx = ridx.push(ie);
            assert(w@ == w0.remove(best as int));
            assert forall|b: int| 0 <= b < w@.len() implies (#[trigger] w@[b]).1.packet_count
                <= e.1.packet_count && widx[b] == if b < best {
                widx0[b]
            } else {
                widx0[b + 1]
            } by {
                if b < best {
                    assert(w@[b] == w0[b]);
                } else {
                    assert(w@[b] == w0[b + 1]);
                }
            }
            assert forall|b: int|
                0 <= b < w@.len() && e.1.packet_count == (
            #[trigger] w@[b]).1.packet_count implies ie < widx[b] by {
                if b < best {
                    assert(w0[b].1.packet_count < e.1.packet_count);
                } else {
                    assert(widx[b] == widx0[b + 1]);
                }
            }
            assert(r@.to_multiset().add(w@.to_multiset()) =~= entries@.to_multiset());
        }
    }
    proof {
        assert(w@.to_multiset().len() == 0);
        assert(r@.to_multiset() =~= entries@.to_multiset());
        assert(stable_flow_ranking(entries@, r@, ridx));
    }
    r
}

/// The unit exponent byte formatting uses: how many times a value can
/// be divided by 1024, at most three.
pub open spec fn spec_unit_index(bytes: int) -> int {
    if bytes >= 0x4000_0000 {
        3
    } else if bytes >= 0x10_0000 {
        2
    } else if bytes >= 1024 {
        1
    } else {
        0
    }
}

/// 1024 to the `k`.
pub open spec fn spec_unit_divisor(k: int) -> int {
    if k == 3 {
        0x4000_0000
    } else if k == 2 {
        0x10_0000
    } else if k == 1 {
        1024
    } else {
        1
    }
}

/// The unit name for an exponent.
pub open spec fn spec_unit_name(k: int) -> Seq<char> {
    if k == 3 {
        "GB"@
    } else if k == 2 {
        "MB"@
    } else if k == 1 {
        "KB"@
    } else {
        "B"@
    }
}

/// A byte count in tenths of its display unit, rounded to nearest with
/// ties up.
pub open spec fn spec_byte_tenths(bytes: int) -> int {
    (bytes * 10 + spec_unit_divisor(spec_unit_index(bytes)) / 2) / spec_unit_divisor(
        spec_unit_index(bytes),
    )
}

/// The display text for a byte count: the value in its largest unit up
/// to GB, with one decimal.
pub open spec fn spec_format_bytes(bytes: int) -> Seq<char> {
    spec_decimal(spec_byte_tenths(bytes) / 10) + "."@ + seq![
        digit_char(spec_byte_tenths(bytes) % 10),
    ] + " "@ + spec_unit_name(spec_unit_index(bytes))
}

/// Formats a byte count for display, e.g. `1.5 KB`.
pub fn format_bytes(bytes: u64) -> (r: String)
    requires
        bytes < 0x1000_0000_0000_0000,
    ensures
        r@ == spec_format_bytes(bytes as int),
{
    let k: u64 = if bytes >= 0x4000_0000 {
        3
    } else if bytes >= 0x10_0000 {
        2
    } else if bytes >= 1024 {
        1
    } else {
        0
    };
    let divisor: u64 = if k == 3 {
        0x4000_0000
    } else if k == 2 {
        0x10_0000
    } else if k == 1 {
        1024
    } else {
        1
    };
    let tenths = (bytes * 10 + divisor / 2) / divisor;
    let mut r = u64_string(tenths / 10);
    r.append(".");
    let digit_text = u64_string(tenths % 10);
    r.append(digit_text.as_str());
    r.append(" ");
    if k == 3 {
        r.append("GB");
    } else if k == 2 {
        r.append("MB");
    } else if k == 1 {
        r.append("KB");
    } else {
        r.append("B");
    }
    proof {
        assert(spec_decimal(spec_byte_tenths(bytes as int) % 10) =~= seq![
            digit_char(spec_byte_tenths(bytes as int) % 10),
        ]);
        assert(r@ =~= spec_format_bytes(bytes as int));
    }
    r
}

/// How many records of a sequence sit at one threat level.
pub open spec fn spec_count_level(rs: Seq<PacketRecord>, l: ThreatLevel) -> int
    decreases rs.len(),
{
    if rs.len() == 0 {
        0
    } else {
        spec_count_level(rs.drop_last(), l) + if rs.last().threat_level == l {
            1int
        } else {
            0int
        }
    }
}

/// The per-level record counts a threat summary shows.
pub struct ThreatCounts {
    pub safe: u64,
    pub low: u64,
    pub medium: u64,
    pub high: u64,
    pub critical: u64,
}

/// Counts the records at each threat level.
pub fn threat_counts(records: &Vec<PacketRecord>) -> (c: ThreatCounts)
    ensures
        c.safe as int == spec_count_level(records@, ThreatLevel::Safe),
        c.low as int == spec_count_level(records@, ThreatLevel::Low),
        c.medium as int == spec_count_level(records@, ThreatLevel::Medium),
        c.high as int == spec_count_level(records@, ThreatLevel::High),
        c.critical as int == spec_count_level(records@, ThreatLevel::Critical),
{
    let mut c = ThreatCounts { safe: 0, low: 0, medium: 0, high: 0, critical: 0 };
    let n = records.len();
    let mut i: usize = 0;
    while i < n
        invariant
            i <= n,
            n == records@.len(),
            c.safe as int == spec_count_level(records@.take(i as int), ThreatLevel::Safe),
            c.low as int == spec_count_level(records@.take(i as int), ThreatLevel::Low),
            c.medium as int == spec_count_level(records@.take(i as int), ThreatLevel::Medium),
            c.high as int == spec_count_level(records@.take(i as int), ThreatLevel::High),
            c.critical as int == spec_count_level(records@.take(i as int), ThreatLevel::Critical),
            c.safe as int + c.low as int + c.medium as int + c.high as int + c.critical as int
                == i as int,
        decreases n - i,
    {
        proof {
            assert(records@.take(i + 1).drop_last() =~= records@.take(i as int));
            assert(records@.take(i + 1).last() == records@[i as int]);
        }
        match records[i].threat_level {
            ThreatLevel::Safe => {
                c.safe = c.safe + 1;
            },
            ThreatLevel::Low => {
                c.low = c.low + 1;
            },
            ThreatLevel::Medium => {
                c.medium = c.medium + 1;
            },
            ThreatLevel::High => {
                c.high = c.high + 1;
            },
            ThreatLevel::Critical => {
                c.critical = c.critical + 1;
            },
        }
        i = i + 1;
    }
    proof {
        assert(records@.take(n as int) =~= records@);
    }
    c
}

/// How many sizes of a sequence fall in `[lo, hi)`.
pub open spec fn spec_count_in_range(sizes: Seq<usize>, lo: int, hi: int) -> int
    decreases sizes.len(),
{
    if sizes.len() == 0 {
        0
    } else {
        spec_count_in_range(sizes.drop_last(), lo, hi) + if lo <= sizes.last() < hi {
            1int
        } else {
            0int
        }
    }
}

/// The packet-size distribution a dashboard shows: the four fixed
/// buckets, their percentages of the whole, and the extremes.
pub struct SizeHistogram {
    pub total: usize,
    pub small: usize,
    pub medium: usize,
    pub large: usize,
    pub jumbo: usize,
    pub small_pct: usize,
    pub medium_pct: usize,
    pub large_pct: usize,
    pub jumbo_pct: usize,
    pub min_size: usize,
    pub max_size: usize,
    pub avg_size: usize,
}

/// The smallest element of a size sequence, zero when empty.
pub open spec fn spec_min_size(sizes: Seq<usize>) -> int
    decreases sizes.len(),
{
    if sizes.len() == 0 {
        0
    } else if sizes.len() == 1 {
        sizes.last() as int
    } else {
        let rest = spec_min_size(sizes.drop_last());
        if sizes.last() < rest {
            sizes.last() as int
        } else {
            rest
        }
    }
}

/// The largest element of a size sequence, zero when empty.
pub open spec fn spec_max_size(sizes: Seq<usize>) -> int
    decreases sizes.len(),
{
    if sizes.len() == 0 {
        0
    } else {
        let rest = spec_max_size(sizes.drop_last());
        if sizes.last() >= rest {
            sizes.last() as int
        } else {
            rest
        }
    }
}

/// The sum of a size sequence.
pub open spec fn spec_sum_size(sizes: Seq<usize>) -> int
    decreases sizes.len(),
{
    if sizes.len() == 0 {
        0
    } else {
        spec_sum_size(sizes.drop_last()) + sizes.last() as int
    }
}

/// Buckets the retained packet sizes: under 100 bytes, 100 to 500, 500
/// to 1500, and 1500 and above, with integer percentages of the total,
/// and the minimum, maximum and mean size.
pub fn size_histogram(sizes: &Vec<usize>) -> (h: SizeHistogram)
    requires
        spec_sum_size(sizes@) <= u64::MAX,
    ensures
        h.total == sizes@.len(),
        h.small as int == spec_count_in_range(sizes@, 0, 100),
        h.medium as int == spec_count_in_range(sizes@, 100, 500),
        h.large as int == spec_count_in_range(sizes@, 500, 1500),
        h.jumbo as int == spec_count_in_range(sizes@, 1500, usize::MAX as int + 1),
        h.small_pct as int == h.small * 100 / (if sizes@.len() == 0 {
            1int
        } else {
            sizes@.len() as int
        }),
        h.medium_pct as int == h.medium * 100 / (if sizes@.len() == 0 {
            1int
        } else {
            sizes@.len() as int
        }),
        h.large_pct as int == h.large * 100 / (if sizes@.len() == 0 {
            1int
        } else {
            sizes@.len() as int
        }),
        h.jumbo_pct as int == h.jumbo * 100 / (if sizes@.len() == 0 {
            1int
        } else {
            sizes@.len() as int
        }),
        h.min_size as int == spec_min_size(sizes@),
        h.max_size as int == spec_max_size(sizes@),
        h.avg_size as int == (if sizes@.len() == 0 {
            0int
        } else {
            spec_sum_size(sizes@) / sizes@.len() as int
        }),
{
    let n = sizes.len();
    let mut small: usize = 0;
    let mut medium: usize = 0;
    let mut large: usize = 0;
    let mut jumbo: usize = 0;
    let mut min_size: usize = 0;
    let mut max_size: usize = 0;
    let mut sum: u64 = 0;
    let mut i: usize = 0;
    while i < n
        invariant
            i <= n,
            n == sizes@.len(),
            small as int == spec_count_in_range(sizes@.take(i as int), 0, 100),
            medium as int == spec_count_in_range(sizes@.take(i as int), 100, 500),
            large as int == spec_count_in_range(sizes@.take(i as int), 500, 1500),
            jumbo as int == spec_count_in_range(sizes@.take(i as int), 1500, usize::MAX as int + 1),
            small + medium + large + jumbo == i,
            min_size as int == spec_min_size(sizes@.take(i as int)),
            max_size as int == spec_max_size(sizes@.take(i as int)),
            sum as int == spec_sum_size(sizes@.take(i as int)),
            spec_sum_size(sizes@) <= u64::MAX,
        decreases n - i,
    {
        proof {
            assert(sizes@.take(i + 1).drop_last() =~= sizes@.take(i as int));
            assert(sizes@.take(i + 1).last() == sizes@[i as int]);
            lemma_sum_size_prefix(sizes@, i + 1);
        }
        let v = sizes[i];
        if v < 100 {
            small = small + 1;
        } else if v < 500 {
            medium = medium + 1;
        } else if v < 1500 {
            large = large + 1;
        } else {
            jumbo = jumbo + 1;
        }
        if i == 0 {
            min_size = v;
            max_size = v;
        } else {
            if v < min_size {
                min_size = v;
            }
            if v >= max_size {
                max_size = v;
            }
        }
        sum = sum + (v as u64);
        i = i + 1;
    }
    proof {
        assert(sizes@.take(n as int) =~= sizes@);
    }
    let total = n;
    let divisor = if total == 0 {
        1
    } else {
        total
    };
    proof {
        if n > 0 {
            assert(spec_sum_size(sizes@) / n as int <= spec_max_size(sizes@) * n as int / n as int)
                by {
                lemma_sum_le_max_times_len(sizes@);
                vstd::arithmetic::div_mod::lemma_div_is_ordered(
                    spec_sum_size(sizes@),
                    spec_max_size(sizes@) * n as int,
                    n as int,
                );
            }
            assert(spec_max_size(sizes@) * n as int / n as int == spec_max_size(sizes@)) by {
                vstd::arithmetic::div_mod::lemma_div_multiples_vanish(
                    spec_max_size(sizes@),
                    n as int,
                );
            }
            lemma_max_size_fits(sizes@);
        }
    }
    let avg_size = if total == 0 {
        0
    } else {
        (sum / (total as u64)) as usize
    };
    SizeHistogram {
        total,
        small,
        medium,
        large,
        jumbo,
        small_pct: percentage(small, divisor),
        medium_pct: percentage(medium, divisor),
        large_pct: percentage(large, divisor),
        jumbo_pct: percentage(jumbo, divisor),
        min_size,
        max_size,
        avg_size,
    }
}

/// The integer percentage `part * 100 / divisor`.
fn percentage(part: usize, divisor: usize) -> (r: usize)
    requires
        1 <= divisor,
        part <= divisor,
    ensures
        r as int == part * 100 / divisor as int,
        r <= 100,
{
    let wide = (part as u128) * 100 / (divisor as u128);
    proof {
        assert(part as int * 100 / divisor as int <= divisor as int * 100 / divisor as int) by {
            vstd::arithmetic::div_mod::lemma_div_is_ordered(
                part as int * 100,
                divisor as int * 100,
                divisor as int,
            );
            assert(part as int * 100 <= divisor as int * 100) by (nonlinear_arith)
                requires
                    part as int <= divisor as int,
            ;
        }
        assert(divisor as int * 100 / divisor as int == 100) by {
            vstd::arithmetic::div_mod::lemma_div_multiples_vanish(100, divisor as int);
            assert(divisor as int * 100 == 100 * divisor as int) by (nonlinear_arith);
        }
    }
    wide as usize
}

proof fn lemma_sum_size_prefix(sizes: Seq<usize>, i: int)
    requires
        0 <= i <= sizes.len(),
    ensures
        spec_sum_size(sizes.take(i)) <= spec_sum_size(sizes),
    decreases sizes.len() - i,
{
    if i < sizes.len() {
        lemma_sum_size_prefix(sizes, i + 1);
        assert(sizes.take(i + 1).drop_last() =~= sizes.take(i));
        assert(sizes.take(i + 1).last() == sizes[i]);
    } else {
        assert(sizes.take(i) =~= sizes);
    }
}

proof fn lemma_sum_le_max_times_len(sizes: Seq<usize>)
    ensures
        spec_sum_size(sizes) <= spec_max_size(sizes) * sizes.len(),
    decreases sizes.len(),
{
    if sizes.len() > 0 {
        lemma_sum_le_max_times_len(sizes.drop_last());
        lemma_max_size_monotone(sizes);
        assert(spec_max_size(sizes.drop_last()) * (sizes.len() - 1) <= spec_max_size(sizes) * (
        sizes.len() - 1)) by (nonlinear_arith)
            requires
                spec_max_size(sizes.drop_last()) <= spec_max_size(sizes),
                sizes.len() >= 1,
        ;
        assert(spec_max_size(sizes) * sizes.len() == spec_max_size(sizes) * (sizes.len() - 1)
            + spec_max_size(sizes)) by (nonlinear_arith);
    }
}

proof fn lemma_max_size_monotone(sizes: Seq<usize>)
    requires
        sizes.len() > 0,
    ensures
        spec_max_size(sizes.drop_last()) <= spec_max_size(sizes),
        sizes.last() as int <= spec_max_size(sizes),
{
}

proof fn lemma_max_size_fits(sizes: Seq<usize>)
    ensures
        0 <= spec_max_size(sizes) <= usize::MAX,
        0 <= spec_min_size(sizes) <= usize::MAX,
    decreases sizes.len(),
{
    if sizes.len() > 0 {
        lemma_max_size_fits(sizes.drop_last());
    }
}

/// The byte rate of the highest sample of a history, zero when empty.
pub open spec fn spec_max_bps(points: Seq<BandwidthPoint>) -> int
    decreases points.len(),
{
    if points.len() == 0 {
        0
    } else {
        let rest = spec_max_bps(points.drop_last());
        if points.last().bytes_per_sec as int >= rest {
            points.last().bytes_per_sec as int
        } else {
            rest
        }
    }
}

/// The rendered window of the bandwidth graph: the last twenty samples,
/// or all of them when fewer.
pub open spec fn spec_bar_window(points: Seq<BandwidthPoint>) -> Seq<BandwidthPoint> {
    crate::ring::suffix_within(points, 20)
}

/// The divisor the bandwidth graph scales by: the highest byte rate of
/// the rendered window, at least one.
pub open spec fn spec_bar_scale(points: Seq<BandwidthPoint>) -> int {
    if spec_max_bps(spec_bar_window(points)) >= 1 {
        spec_max_bps(spec_bar_window(points))
    } else {
        1
    }
}

/// The bar lengths of the bandwidth graph: the last twenty samples (or
/// all, when fewer), each scaled to forty columns of the rendered
/// window's maximum byte rate.
pub fn bandwidth_bars(points: &Vec<BandwidthPoint>) -> (bars: Vec<(BandwidthPoint, usize)>)
    ensures
        bars@.len() == spec_bar_window(points@).len(),
        forall|i: int|
            0 <= i < bars@.len() ==> (#[trigger] bars@[i]).0 == spec_bar_window(points@)[i]
                && bars@[i].1 as int == bars@[i].0.bytes_per_sec * 40 / spec_bar_scale(points@),
{
    let n = points.len();
    let start = if n <= 20 {
        0
    } else {
        n - 20
    };
    let ghost window = spec_bar_window(points@);
    proof {
        assert(window =~= points@.skip(start as int));
    }

    let mut maxb: u64 = 0;
    let mut i = start;
    while i < n
        invariant
            start <= i <= n,
            n == points@.len(),
            window == points@.skip(start as int),
            window.len() == n - start,
            maxb as int == spec_max_bps(window.take(i - start)),
        decreases n - i,
    {
        proof {
            assert(window.take(i - start + 1).drop_last() =~= window.take(i - start));
            assert(window.take(i - start + 1).last() == points@[i as int]);
        }
        if points[i].bytes_per_sec >= maxb {
            maxb = points[i].bytes_per_sec;
        }
        i = i + 1;
    }
    proof {
        assert(window.take(n - start) =~= window);
    }
    let scale: u64 = if maxb >= 1 {
        maxb
    } else {
        1
    };

    let mut bars: Vec<(BandwidthPoint, usize)> = Vec::new();
    let mut j = start;
    while j < n
        invariant
            start <= j <= n,
            n == points@.len(),
            window == points@.skip(start as int),
            window.len() == n - start,
            window == spec_bar_window(points@),
            scale as int == spec_bar_scale(points@),
            bars@.len() == j - start,
            forall|t: int|
                0 <= t < bars@.len() ==> (#[trigger] bars@[t]).0 == window[t] && bars@[t].1 as int
                    == bars@[t].0.bytes_per_sec * 40 / spec_bar_scale(points@),
        decreases n - j,
    {
        let p = points[j];
        proof {
            assert(window[j - start] == points@[j as int]);
        }
        let len128 = (p.bytes_per_sec as u128) * 40 / (scale as u128);
        proof {
            lemma_bps_le_max(window, j - start);
            assert(p.bytes_per_sec as int * 40 / scale as int <= scale as int * 40 / scale as int)
                by {
                vstd::arithmetic::div_mod::lemma_div_is_ordered(
                    p.bytes_per_sec as int * 40,
                    scale as int * 40,
                    scale as int,
                );
                assert(p.bytes_per_sec as int * 40 <= scale as int * 40) by (nonlinear_arith)
                    requires
                        p.bytes_per_sec as int <= scale as int,
                ;
            }
            assert(scale as int * 40 / scale as int == 40) by {
                vstd::arithmetic::div_mod::lemma_div_multiples_vanish(40, scale as int);
                assert(scale as int * 40 == 40 * scale as int) by (nonlinear_arith);
            }
        }
        let bar = len128 as usize;
        bars.push((p, bar));
        j = j + 1;
    }
    bars
}

/// The integer percentage a count makes of a total; zero of an empty
/// total. What a summary or table row shows beside the count.
pub fn count_percentage(count: u64, total: u64) -> (r: u64)
    requires
        count <= total,
    ensures
        r as int == if total == 0 {
            0int
        } else {
            count * 100 / total as int
        },
        r <= 100,
{
    if total == 0 {
        return 0;
    }
    let wide = (count as u128) * 100 / (total as u128);
    proof {
        assert(count as int * 100 / total as int <= total as int * 100 / total as int) by {
            vstd::arithmetic::div_mod::lemma_div_is_ordered(
                count as int * 100,
                total as int * 100,
                total as int,
            );
            assert(count as int * 100 <= total as int * 100) by (nonlinear_arith)
                requires
                    count as int <= total as int,
            ;
        }
        assert(total as int * 100 / total as int == 100) by {
            vstd::arithmetic::div_mod::lemma_div_multiples_vanish(100, total as int);
            assert(total as int * 100 == 100 * total as int) by (nonlinear_arith);
        }
    }
    wide as u64
}

/// The totals a capture summary reports: how many records there are,
/// and the sum of their sizes when it fits the counter.
pub fn record_totals(records: &Vec<PacketRecord>) -> (t: (usize, Option<u64>))
    ensures
        t.0 == records@.len(),
        match t.1 {
            Some(s) => s as int == spec_sum_sizes(records@),
            None => spec_sum_sizes(records@) > u64::MAX,
        },
{
    let n = records.len();
    let mut sum: u64 = 0;
    let mut overflowed = false;
    let mut i: usize = 0;
    while i < n
        invariant
            i <= n,
            n == records@.len(),
            !overflowed ==> sum as int == spec_sum_sizes(records@.take(i as int)),
            overflowed ==> spec_sum_sizes(records@.take(i as int)) > u64::MAX,
        decreases n - i,
    {
        proof {
            assert(records@.take(i + 1).drop_last() =~= records@.take(i as int));
            assert(records@.take(i + 1).last() == records@[i as int]);
        }
        let v = records[i].packet_size as u64;
        if !overflowed {
            if v <= u64::MAX - sum {
                sum = sum + v;
            } else {
                overflowed = true;
            }
        }
        i = i + 1;
    }
    proof {
        assert(records@.take(n as int) =~= records@);
    }
    if overflowed {
        (n, None)
    } else {
        (n, Some(sum))
    }
}

/// How many records of a sequence carry protocol name `p`.
pub open spec fn spec_count_proto(rs: Seq<PacketRecord>, p: Seq<char>) -> int
    decreases rs.len(),
{
    if rs.len() == 0 {
        0
    } else {
        spec_count_proto(rs.drop_last(), p) + if rs.last().protocol@ == p {
            1int
        } else {
            0int
        }
    }
}

proof fn lemma_count_proto_le(rs: Seq<PacketRecord>, p: Seq<char>)
    ensures
        0 <= spec_count_proto(rs, p) <= rs.len(),
    decreases rs.len(),
{
    if rs.len() > 0 {
        lemma_count_proto_le(rs.drop_last(), p);
    }
}

/// Counts the records under each transport protocol name, in
/// first-appearance order.
pub fn protocol_distribution(records: &Vec<PacketRecord>) -> (m: StrCountMap)
    ensures
        m.wf(),
        forall|p: Seq<char>| m@.contains_key(p) <==> spec_count_proto(records@, p) > 0,
        forall|p: Seq<char>|
            m@.contains_key(p) ==> #[trigger] m@[p] == spec_count_proto(records@, p),
{
    let mut m = StrCountMap::new();
    let n = records.len();
    let mut i: usize = 0;
    while i < n
        invariant
            i <= n,
            n == records@.len(),
            m.wf(),
            forall|p: Seq<char>|
                m@.contains_key(p) <==> spec_count_proto(records@.take(i as int), p) > 0,
            forall|p: Seq<char>|
                m@.contains_key(p) ==> #[trigger] m@[p] == spec_count_proto(
                    records@.take(i as int),
                    p,
                ),
        decreases n - i,
    {
        let ghost prefix = records@.take(i as int);
        proof {
            assert(records@.take(i + 1).drop_last() =~= prefix);
            assert(records@.take(i + 1).last() == records@[i as int]);
            let p0 = records@[i as int].protocol@;
            if m@.contains_key(p0) {
                lemma_count_proto_le(prefix, p0);
            }
        }
        m.increment(records[i].protocol.as_str());
        proof {
            let p0 = records@[i as int].protocol@;
            assert forall|p: Seq<char>| #[trigger]
                m@.contains_key(p) == (spec_count_proto(records@.take(i + 1), p) > 0) && (
            m@.contains_key(p) ==> m@[p] == spec_count_proto(records@.take(i + 1), p)) by {
                lemma_count_proto_le(records@.take(i as int), p);
                if p != p0 {
                    assert(spec_count_proto(records@.take(i + 1), p) == spec_count_proto(
                        records@.take(i as int),
                        p,
                    ));
                }
            }
        }
        i = i + 1;
    }
    proof {
        assert(records@.take(n as int) =~= records@);
    }
    m
}

/// How many records of a sequence carry application protocol `p`.
pub open spec fn spec_count_app_proto(rs: Seq<PacketRecord>, p: Seq<char>) -> int
    decreases rs.len(),
{
    if rs.len() == 0 {
        0
    } else {
        spec_count_app_proto(rs.drop_last(), p) + (match rs.last().application_protocol {
            Some(a) => if a@ == p {
                1int
            } else {
                0int
            },
            None => 0int,
        })
    }
}

proof fn lemma_count_app_proto_le(rs: Seq<PacketRecord>, p: Seq<char>)
    ensures
        0 <= spec_count_app_proto(rs, p) <= rs.len(),
    decreases rs.len(),
{
    if rs.len() > 0 {
        lemma_count_app_proto_le(rs.drop_last(), p);
    }
}

/// Counts the records under each inferred application protocol, in
/// first-appearance order; records without one count nowhere.
pub fn app_protocol_distribution(records: &Vec<PacketRecord>) -> (m: StrCountMap)
    ensures
        m.wf(),
        forall|p: Seq<char>| m@.contains_key(p) <==> spec_count_app_proto(records@, p) > 0,
        forall|p: Seq<char>|
            m@.contains_key(p) ==> #[trigger] m@[p] == spec_count_app_proto(records@, p),
{
    let mut m = StrCountMap::new();
    let n = records.len();
    let mut i: usize = 0;
    while i < n
        invariant
            i <= n,
            n == records@.len(),
            m.wf(),
            forall|p: Seq<char>|
                m@.contains_key(p) <==> spec_count_app_proto(records@.take(i as int), p) > 0,
            forall|p: Seq<char>|
                m@.contains_key(p) ==> #[trigger] m@[p] == spec_count_app_proto(
                    records@.take(i as int),
                    p,
                ),
        decreases n - i,
    {
        let ghost prefix = records@.take(i as int);
        proof {
            assert(records@.take(i + 1).drop_last() =~= prefix);
            assert(records@.take(i + 1).last() == records@[i as int]);
        }
        match &records[i].application_protocol {
            Some(app) => {
                proof {
                    if m@.contains_key(app@) {
                        lemma_count_app_proto_le(prefix, app@);
                    }
                }
                m.increment(app.as_str());
                proof {
                    let p0 = records@[i as int].application_protocol->Some_0@;
                    assert forall|p: Seq<char>| #[trigger]
                        m@.contains_key(p) == (spec_count_app_proto(records@.take(i + 1), p) > 0)
                        && (m@.contains_key(p) ==> m@[p] == spec_count_app_proto(
                        records@.take(i + 1),
                        p,
                    )) by {
                        lemma_count_app_proto_le(records@.take(i as int), p);
                        if p != p0 {
                            assert(spec_count_app_proto(records@.take(i + 1), p)
                                == spec_count_app_proto(records@.take(i as int), p));
                        }
                    }
                }
            },
            None => {
                proof {
                    assert forall|p: Seq<char>|
                        spec_count_app_proto(records@.take(i + 1), p) == spec_count_app_proto(
                            records@.take(i as int),
                            p,
                        ) by {}
                }
            },
        }
        i = i + 1;
    }
    proof {
        assert(records@.take(n as int) =~= records@);
    }
    m
}

/// The country a record's geographic hint names, if any.
pub open spec fn spec_record_country(r: PacketRecord) -> Option<Seq<char>> {
    match r.geo_info {
        Some(g) => match g.country {
            Some(c) => Some(c@),
            None => None,
        },
        None => None,
    }
}

/// How many records of a sequence name country `c`.
pub open spec fn spec_count_country(rs: Seq<PacketRecord>, c: Seq<char>) -> int
    decreases rs.len(),
{
    if rs.len() == 0 {
        0
    } else {
        spec_count_country(rs.drop_last(), c) + if spec_record_country(rs.last()) == Some(c) {
            1int
        } else {
            0int
        }
    }
}

proof fn lemma_count_country_le(rs: Seq<PacketRecord>, c: Seq<char>)
    ensures
        0 <= spec_count_country(rs, c) <= rs.len(),
    decreases rs.len(),
{
    if rs.len() > 0 {
        lemma_count_country_le(rs.drop_last(), c);
    }
}

/// The suffix of the records the geographic view considers: the most
/// recent `limit` of them.
pub open spec fn spec_geo_window(rs: Seq<PacketRecord>, limit: int) -> Seq<PacketRecord> {
    if rs.len() <= limit {
        rs
    } else {
        rs.skip(rs.len() - limit)
    }
}

/// Counts the records of the most recent `limit` under each country
/// their geographic hints name, in first-appearance order.
pub fn country_counts(records: &Vec<PacketRecord>, limit: usize) -> (m: StrCountMap)
    ensures
        m.wf(),
        forall|c: Seq<char>|
            m@.contains_key(c) <==> spec_count_country(
                spec_geo_window(records@, limit as int),
                c,
            ) > 0,
        forall|c: Seq<char>|
            m@.contains_key(c) ==> #[trigger] m@[c] == spec_count_country(
                spec_geo_window(records@, limit as int),
                c,
            ),
{
    let n = records.len();
    let start = if n <= limit {
        0
    } else {
        n - limit
    };
    let ghost window = spec_geo_window(records@, limit as int);
    proof {
        assert(window =~= records@.skip(start as int));
    }
    let mut m = StrCountMap::new();
    let mut i = start;
    while i < n
        invariant
            start <= i <= n,
            n == records@.len(),
            window == records@.skip(start as int),
            window.len() == n - start,
            m.wf(),
            forall|c: Seq<char>|
                m@.contains_key(c) <==> spec_count_country(window.take(i - start), c) > 0,
            forall|c: Seq<char>|
                m@.contains_key(c) ==> #[trigger] m@[c] == spec_count_country(
                    window.take(i - start),
                    c,
                ),
        decreases n - i,
    {
        let ghost prefix = window.take(i - start);
        proof {
            assert(window.take(i - start + 1).drop_last() =~= prefix);
            assert(window.take(i - start + 1).last() == records@[i as int]);
        }
        let has_country = match &records[i].geo_info {
            Some(g) => g.country.is_some(),
            None => false,
        };
        if has_country {
            let name = match &records[i].geo_info {
                Some(g) => match &g.country {
                    Some(c) => c.as_str(),
                    None => "",
                },
                None => "",
            };
            proof {
                if m@.contains_key(name@) {
                    lemma_count_country_le(prefix, name@);
                }
            }
            m.increment(name);
            proof {
                let c0 = spec_record_country(records@[i as int])->Some_0;
                assert forall|c: Seq<char>| #[trigger]
                    m@.contains_key(c) == (spec_count_country(window.take(i - start + 1), c) > 0)
                    && (m@.contains_key(c) ==> m@[c] == spec_count_country(
                    window.take(i - start + 1),
                    c,
                )) by {
                    lemma_count_country_le(prefix, c);
                    if c != c0 {
                        assert(spec_count_country(window.take(i - start + 1), c)
                            == spec_count_country(prefix, c));
                    }
                }
            }
        } else {
            proof {
                assert(spec_record_country(records@[i as int]) is None);
            }
        }
        i = i + 1;
    }
    proof {
        assert(window.take(n - start) =~= window);
    }
    m
}

proof fn lemma_bps_le_max(points: Seq<BandwidthPoint>, i: int)
    requires
        0 <= i < points.len(),
    ensures
        points[i].bytes_per_sec as int <= spec_max_bps(points),
    decreases points.len(),
{
    if i == points.len() - 1 {
    } else {
        lemma_bps_le_max(points.drop_last(), i);
    }
}

} // verus!
