//! CPU frequency: the core topology (uniform, or hybrid with performance
//! and efficiency cores), the averaged readings, their text, and the
//! sparkline history.

use vstd::prelude::*;

use crate::text::{
    chars_of, dec, eq_chars, parse_u32, parse_unsigned, push_dec, push_dec_zero_padded, strip_prefix,
    trim, trimmed, zero_pad,
};

verus! {

broadcast use vstd::seq_lib::group_to_multiset_ensures;

// ── sorted CPU number lists ─────────────────────────────────────────────

pub open spec fn sorted_u32(s: Seq<u32>) -> bool {
    forall|i: int, j: int| 0 <= i <= j < s.len() ==> s[i] <= s[j]
}

/// Inserts `x` into the sorted list `v`, keeping it sorted.
pub fn insert_sorted(v: &mut Vec<u32>, x: u32)
    requires
        sorted_u32(old(v)@),
    ensures
        sorted_u32(final(v)@),
        final(v)@.to_multiset() == old(v)@.to_multiset().insert(x),
{
    let mut p: usize = 0;
    while p < v.len() && v[p] <= x
        invariant
            p <= v@.len(),
            v@ == old(v)@,
            forall|a: int| 0 <= a < p ==> v@[a] <= x,
        decreases v@.len() - p,
    {
        p = p + 1;
    }
    let ghost before = v@;
    proof {
        assert forall|a: int| p <= a < before.len() implies x < #[trigger] before[a] by {
            assert(x < before[p as int]);
        }
    }
    v.insert(p, x);
    proof {
        before.insert_ensures(p as int, x);
        assert forall|i: int, j: int| 0 <= i <= j < v@.len() implies v@[i] <= v@[j] by {
            if j < p {
            } else if j == p {
                if i < p {
                    assert(v@[i] == before[i]);
                }
            } else {
                assert(v@[j] == before[j - 1]);
                if i < p {
                    assert(v@[i] == before[i]);
                } else if i > p {
                    assert(v@[i] == before[i - 1]);
                }
            }
        }
    }
}

/// The layout of the CPU cores, detected once at startup; both lists are
/// in ascending order.
#[derive(Clone, Debug, PartialEq, Eq)]
pub enum CoreLayout {
    Uniform { cpus: Vec<u32> },
    Hybrid { p_cpus: Vec<u32>, e_cpus: Vec<u32> },
}

/// The performance (or only) cores of a layout.
pub open spec fn p_list(l: CoreLayout) -> Seq<u32> {
    match l {
        CoreLayout::Uniform { cpus } => cpus@,
        CoreLayout::Hybrid { p_cpus, .. } => p_cpus@,
    }
}

/// The efficiency cores of a layout (none when uniform).
pub open spec fn e_list(l: CoreLayout) -> Seq<u32> {
    match l {
        CoreLayout::Uniform { .. } => Seq::<u32>::empty(),
        CoreLayout::Hybrid { e_cpus, .. } => e_cpus@,
    }
}

/// `l` lists the cores `p` and `e`, each sorted, and is hybrid exactly when
/// there is an efficiency core.
pub open spec fn layout_of(l: CoreLayout, p: Seq<u32>, e: Seq<u32>) -> bool {
    &&& sorted_u32(p_list(l))
    &&& sorted_u32(e_list(l))
    &&& p_list(l).to_multiset() == p.to_multiset()
    &&& e_list(l).to_multiset() == e.to_multiset()
    &&& (l is Uniform <==> e.len() == 0)
}

fn make_layout(p: Vec<u32>, e: Vec<u32>) -> (l: CoreLayout)
    ensures
        p_list(l) == p@,
        e_list(l) == e@,
        l is Uniform <==> e@.len() == 0,
{
    if e.len() == 0 {
        assert(e@ =~= Seq::<u32>::empty());
        CoreLayout::Uniform { cpus: p }
    } else {
        CoreLayout::Hybrid { p_cpus: p, e_cpus: e }
    }
}

/// The CPU number of a `/sys/devices/system/cpu` entry named `cpuN`.
pub open spec fn cpu_number_spec(name: Seq<char>) -> Option<nat> {
    if name.len() >= 3 && name.subrange(0, 3) == "cpu"@ {
        parse_unsigned(name.subrange(3, name.len() as int), u32::MAX as nat)
    } else {
        None
    }
}

/// `N` for a directory entry named `cpuN` (as `u32`); `None` for the other
/// entries (`cpufreq`, `cpuidle`, ...).
pub fn cpu_number(name: &str) -> (r: Option<u32>)
    ensures
        match cpu_number_spec(name@) {
            Some(n) => r == Some(n as u32),
            None => r is None,
        },
{
    let prefix = chars_of("cpu");
    proof {
        reveal_strlit("cpu");
    }
    match strip_prefix(&chars_of(name), &prefix) {
        Some(rest) => {
            let r = parse_u32(&rest);
            r
        },
        None => None,
    }
}

// ── topology from `topology/core_type` ──────────────────────────────────

/// A `core_type` of `0` marks an efficiency core; `1` and anything else a
/// performance core.
pub open spec fn is_e_core(core_type: Seq<char>) -> bool {
    trim(core_type) == "0"@
}

/// The CPU numbers whose core type is (`e`) or is not (`!e`) efficiency.
pub open spec fn cores_by_type(cpus: Seq<(u32, String)>, e: bool) -> Seq<u32>
    decreases cpus.len(),
{
    if cpus.len() == 0 {
        Seq::<u32>::empty()
    } else {
        let rest = cores_by_type(cpus.drop_last(), e);
        if is_e_core(cpus.last().1@) == e {
            rest.push(cpus.last().0)
        } else {
            rest
        }
    }
}

/// The layout from each CPU's number and the text of its
/// `topology/core_type` file (empty when unreadable).
pub fn layout_from_core_types(cpus: &Vec<(u32, String)>) -> (l: CoreLayout)
    ensures
        layout_of(l, cores_by_type(cpus@, false), cores_by_type(cpus@, true)),
{
    let zero = chars_of("0");
    let mut p: Vec<u32> = Vec::new();
    let mut e: Vec<u32> = Vec::new();
    for i in 0..cpus.len()
        invariant
            zero@ == "0"@,
            sorted_u32(p@),
            sorted_u32(e@),
            p@.to_multiset() == cores_by_type(cpus@.take(i as int), false).to_multiset(),
            e@.to_multiset() == cores_by_type(cpus@.take(i as int), true).to_multiset(),
    {
        proof {
            assert(cpus@.take(i + 1).drop_last() =~= cpus@.take(i as int));
            assert(cpus@.take(i + 1).last() == cpus@[i as int]);
        }
        let num = cpus[i].0;
        let ct = trimmed(&chars_of(cpus[i].1.as_str()));
        if eq_chars(&ct, &zero) {
            insert_sorted(&mut e, num);
        } else {
            insert_sorted(&mut p, num);
        }
    }
    proof {
        assert(cpus@.take(cpus@.len() as int) =~= cpus@);
    }
    let ghost pe = cores_by_type(cpus@, true);
    let l = make_layout(p, e);
    proof {
        assert(e_list(l).len() == e_list(l).to_multiset().len());
        assert(pe.len() == pe.to_multiset().len());
    }
    l
}

// ── topology from `cpufreq/cpuinfo_max_freq` ────────────────────────────

/// Some CPU has maximum frequency `f`.
pub open spec fn has_freq(cpus: Seq<(u32, u64)>, f: u64) -> bool {
    exists|i: int| 0 <= i < cpus.len() && #[trigger] cpus[i].1 == f
}

/// The non-zero maximum frequencies are exactly two, `lo < hi`, and `hi` is
/// at least 20 % above `lo` (in integer percent).
pub open spec fn hybrid_split(cpus: Seq<(u32, u64)>, lo: u64, hi: u64) -> bool {
    &&& 0 < lo < hi
    &&& has_freq(cpus, lo)
    &&& has_freq(cpus, hi)
    &&& forall|i: int|
        0 <= i < cpus.len() && #[trigger] cpus[i].1 > 0 ==> cpus[i].1 == lo || cpus[i].1 == hi
    &&& hi * 100 / (lo as int) >= 120
}

/// The performance cores' frequency when the CPUs split into two classes.
pub open spec fn split_point(cpus: Seq<(u32, u64)>) -> Option<u64> {
    if exists|lo: u64, hi: u64| #[trigger] hybrid_split(cpus, lo, hi) {
        let (lo, hi) = choose|lo: u64, hi: u64| #[trigger] hybrid_split(cpus, lo, hi);
        Some(hi)
    } else {
        None
    }
}

/// The CPUs whose maximum frequency is `hi` (`at`), or is non-zero and
/// not `hi` (`!at`).
pub open spec fn cores_by_freq(cpus: Seq<(u32, u64)>, hi: u64, at: bool) -> Seq<u32>
    decreases cpus.len(),
{
    if cpus.len() == 0 {
        Seq::<u32>::empty()
    } else {
        let rest = cores_by_freq(cpus.drop_last(), hi, at);
        let f = cpus.last().1;
        if (at && f == hi) || (!at && f > 0 && f != hi) {
            rest.push(cpus.last().0)
        } else {
            rest
        }
    }
}

/// The CPUs with a known (non-zero) maximum frequency.
pub open spec fn cores_with_freq(cpus: Seq<(u32, u64)>) -> Seq<u32>
    decreases cpus.len(),
{
    if cpus.len() == 0 {
        Seq::<u32>::empty()
    } else {
        let rest = cores_with_freq(cpus.drop_last());
        if cpus.last().1 > 0 {
            rest.push(cpus.last().0)
        } else {
            rest
        }
    }
}

proof fn lemma_split_unique(cpus: Seq<(u32, u64)>, lo: u64, hi: u64)
    requires
        hybrid_split(cpus, lo, hi),
    ensures
        split_point(cpus) == Some(hi),
{
    assert(exists|x: u64, y: u64| #[trigger] hybrid_split(cpus, x, y));
    let (l, h) = choose|x: u64, y: u64| #[trigger] hybrid_split(cpus, x, y);
    let ilo = choose|i: int| 0 <= i < cpus.len() && #[trigger] cpus[i].1 == lo;
    let ihi = choose|i: int| 0 <= i < cpus.len() && #[trigger] cpus[i].1 == hi;
    let il = choose|i: int| 0 <= i < cpus.len() && #[trigger] cpus[i].1 == l;
    let ih = choose|i: int| 0 <= i < cpus.len() && #[trigger] cpus[i].1 == h;
    assert(cpus[ilo].1 > 0 && cpus[ihi].1 > 0 && cpus[il].1 > 0 && cpus[ih].1 > 0);
}

/// The layout from each CPU's number and maximum frequency in kHz (0 when
/// unreadable): CPUs without a frequency are left out; when the others
/// split into two classes (see `hybrid_split`) the faster ones are the
/// performance cores, otherwise the layout is uniform.
pub fn layout_from_max_freqs(cpus: &Vec<(u32, u64)>) -> (l: CoreLayout)
    ensures
        match split_point(cpus@) {
            Some(hi) => layout_of(l, cores_by_freq(cpus@, hi, true), cores_by_freq(cpus@, hi, false)),
            None => layout_of(l, cores_with_freq(cpus@), Seq::<u32>::empty()),
        },
{
    // The distinct non-zero frequencies, up to three of them.
    let mut a: u64 = 0;
    let mut b: u64 = 0;
    let mut more = false;
    let ghost mut ia: int = 0;
    let ghost mut ib: int = 0;
    let ghost mut ic: int = 0;
    for i in 0..cpus.len()
        invariant
            a == 0 ==> b == 0 && !more && forall|j: int| 0 <= j < i ==> #[trigger] cpus@[j].1 == 0,
            a > 0 ==> 0 <= ia < i && cpus@[ia].1 == a,
            b > 0 ==> a > 0 && b != a && 0 <= ib < i && cpus@[ib].1 == b,
            b == 0 ==> !more && forall|j: int| 0 <= j < i ==> #[trigger] cpus@[j].1 == 0 || cpus@[j].1 == a,
            !more ==> forall|j: int|
                0 <= j < i ==> #[trigger] cpus@[j].1 == 0 || cpus@[j].1 == a || cpus@[j].1 == b,
            more ==> b > 0 && 0 <= ic < i && cpus@[ic].1 > 0 && cpus@[ic].1 != a && cpus@[ic].1 != b,
    {
        let f = cpus[i].1;
        if f > 0 && !more {
            if a == 0 {
                a = f;
                proof {
                    ia = i as int;
                }
            } else if f != a && b == 0 {
                b = f;
                proof {
                    ib = i as int;
                }
            } else if f != a && f != b {
                more = true;
                proof {
                    ic = i as int;
                }
            }
        }
    }
    let (lo, hi) = if a < b {
        (a, b)
    } else {
        (b, a)
    };
    let split = b > 0 && !more && (hi as u128) * 100 / (lo as u128) >= 120;
    proof {
        if split {
            assert(has_freq(cpus@, lo)) by {
                if a < b {
                    assert(cpus@[ia].1 == lo);
                } else {
                    assert(cpus@[ib].1 == lo);
                }
            }
            assert(has_freq(cpus@, hi)) by {
                if a < b {
                    assert(cpus@[ib].1 == hi);
                } else {
                    assert(cpus@[ia].1 == hi);
                }
            }
            assert(hybrid_split(cpus@, lo, hi));
            lemma_split_unique(cpus@, lo, hi);
        } else {
            assert forall|x: u64, y: u64| !hybrid_split(cpus@, x, y) by {
                if hybrid_split(cpus@, x, y) {
                    let ix = choose|i: int| 0 <= i < cpus@.len() && #[trigger] cpus@[i].1 == x;
                    let iy = choose|i: int| 0 <= i < cpus@.len() && #[trigger] cpus@[i].1 == y;
                    assert(cpus@[ix].1 > 0 && cpus@[iy].1 > 0);
                    if a > 0 {
                        assert(cpus@[ia].1 > 0);
                    }
                    if b > 0 {
                        assert(cpus@[ib].1 > 0);
                    }
                    if more {
                        assert(cpus@[ic].1 > 0);
                    }
                }
            }
        }
    }
    let mut p: Vec<u32> = Vec::new();
    let mut e: Vec<u32> = Vec::new();
    for i in 0..cpus.len()
        invariant
            sorted_u32(p@),
            sorted_u32(e@),
            split ==> p@.to_multiset() == cores_by_freq(cpus@.take(i as int), hi, true).to_multiset(),
            split ==> e@.to_multiset() == cores_by_freq(cpus@.take(i as int), hi, false).to_multiset(),
            !split ==> p@.to_multiset() == cores_with_freq(cpus@.take(i as int)).to_multiset(),
            !split ==> e@.len() == 0,
    {
        proof {
            assert(cpus@.take(i + 1).drop_last() =~= cpus@.take(i as int));
            assert(cpus@.take(i + 1).last() == cpus@[i as int]);
        }
        let (num, f) = cpus[i];
        if split {
            if f == hi {
                insert_sorted(&mut p, num);
            } else if f > 0 {
                insert_sorted(&mut e, num);
            }
        } else if f > 0 {
            insert_sorted(&mut p, num);
        }
    }
    proof {
        assert(cpus@.take(cpus@.len() as int) =~= cpus@);
        assert(e@.len() == e@.to_multiset().len());
        if split {
            let pe = cores_by_freq(cpus@, hi, false);
            assert(pe.len() == pe.to_multiset().len());
            assert(pe.len() > 0) by {
                lemma_cores_by_freq_has(cpus@, hi, lo);
            }
        } else {
            assert(e@ =~= Seq::<u32>::empty());
        }
    }
    make_layout(p, e)
}

proof fn lemma_cores_by_freq_has(cpus: Seq<(u32, u64)>, hi: u64, lo: u64)
    requires
        has_freq(cpus, lo),
        0 < lo,
        lo != hi,
    ensures
        cores_by_freq(cpus, hi, false).len() > 0,
    decreases cpus.len(),
{
    if cpus.last().1 != lo {
        let i = choose|i: int| 0 <= i < cpus.len() && #[trigger] cpus[i].1 == lo;
        assert(cpus.drop_last()[i].1 == lo);
        lemma_cores_by_freq_has(cpus.drop_last(), hi, lo);
    }
}

// ── readings ────────────────────────────────────────────────────────────

/// Sum of the readings that could be taken.
pub open spec fn readings_sum(rs: Seq<Option<u64>>) -> int
    decreases rs.len(),
{
    if rs.len() == 0 {
        0
    } else {
        readings_sum(rs.drop_last()) + match rs.last() {
            Some(k) => k as int,
            None => 0,
        }
    }
}

/// Number of the readings that could be taken.
pub open spec fn readings_count(rs: Seq<Option<u64>>) -> int
    decreases rs.len(),
{
    if rs.len() == 0 {
        0
    } else {
        readings_count(rs.drop_last()) + if rs.last() is Some {
            1int
        } else {
            0
        }
    }
}

/// The integer mean of the readings taken; 0 when none was.
pub open spec fn mean_reading(rs: Seq<Option<u64>>) -> int {
    if readings_count(rs) == 0 {
        0
    } else {
        readings_sum(rs) / readings_count(rs)
    }
}

/// Mean current frequency in kHz of a group of cores, from each core's
/// `scaling_cur_freq` reading (`None` when it could not be read or parsed).
pub fn avg_freq_khz(readings: &Vec<Option<u64>>) -> (r: u64)
    ensures
        r == mean_reading(readings@),
{
    let mut total: u128 = 0;
    let mut count: u128 = 0;
    for i in 0..readings.len()
        invariant
            total == readings_sum(readings@.take(i as int)),
            count == readings_count(readings@.take(i as int)),
            count <= i,
            total <= count * 0xffff_ffff_ffff_ffff,
    {
        proof {
            assert(readings@.take(i + 1).drop_last() =~= readings@.take(i as int));
            assert(readings@.take(i + 1).last() == readings@[i as int]);
        }
        match readings[i] {
            Some(k) => {
                total = total + k as u128;
                count = count + 1;
            },
            None => {},
        }
    }
    proof {
        assert(readings@.take(readings@.len() as int) =~= readings@);
    }
    if count == 0 {
        return 0;
    }
    let q = total / count;
    proof {
        assert(q <= 0xffff_ffff_ffff_ffff) by (nonlinear_arith)
            requires
                q == total / count,
                count > 0,
                total <= count * 0xffff_ffff_ffff_ffff,
        ;
    }
    q as u64
}

/// The mean over all cores of a hybrid CPU, weighting each class's mean by
/// its number of cores; 0 for no cores.
pub open spec fn weighted_mean(p: int, np: int, e: int, ne: int) -> int {
    if np + ne == 0 {
        0
    } else {
        (p * np + e * ne) / (np + ne)
    }
}

pub fn weighted_avg_khz(p_khz: u64, n_p: u64, e_khz: u64, n_e: u64) -> (r: u64)
    requires
        n_p + n_e <= u64::MAX,
        p_khz * n_p + e_khz * n_e <= u64::MAX,
    ensures
        r == weighted_mean(p_khz as int, n_p as int, e_khz as int, n_e as int),
{
    let n = n_p + n_e;
    if n == 0 {
        return 0;
    }
    proof {
        assert(0 <= p_khz * n_p && 0 <= e_khz * n_e) by (nonlinear_arith);
    }
    (p_khz * n_p + e_khz * n_e) / n
}

// ── text ────────────────────────────────────────────────────────────────

/// `format!("{}.{:02}", khz / 1_000_000, (khz % 1_000_000) / 10_000)`: GHz
/// with two decimals, truncated.
pub open spec fn ghz_text(khz: nat) -> Seq<char> {
    dec(khz / 1_000_000) + "."@ + zero_pad((khz % 1_000_000) / 10_000, 2)
}

/// The label is the frequency in hundredths of a GHz, truncated: its
/// whole GHz, a point, then the two digits of the hundredths.
pub proof fn law_ghz_hundredths(khz: nat)
    ensures
        ghz_text(khz) == dec((khz / 10_000) / 100) + "."@ + zero_pad((khz / 10_000) % 100, 2),
{
    assert(khz / 1_000_000 == (khz / 10_000) / 100);
    assert((khz % 1_000_000) / 10_000 == (khz / 10_000) % 100);
}

pub fn khz_to_ghz_str(khz: u64) -> (r: String)
    ensures
        r@ == ghz_text(khz as nat),
{
    let mut s = String::new();
    push_dec(&mut s, khz / 1_000_000);
    s.append(".");
    push_dec_zero_padded(&mut s, (khz % 1_000_000) / 10_000, 2);
    s
}

/// What the frequency label shows.
#[derive(Clone, Debug, PartialEq, Eq)]
pub enum FreqDisplay {
    /// `X.XX GHz` for a uniform CPU.
    Single(String),
    /// `P:X.XX` and `E:X.XX` for a hybrid CPU, drawn with a separator
    /// between them.
    Split(String, String),
}

/// One sample: the label and the mean frequency over all cores, in kHz,
/// which drives the sparkline.
#[derive(Clone, Debug, PartialEq, Eq)]
pub struct FreqReading {
    pub display: FreqDisplay,
    pub avg_khz: u64,
}

/// The reading for a layout, from the `scaling_cur_freq` readings of the
/// performance (or only) cores and of the efficiency cores, in the order of
/// the layout's lists.
pub fn take_reading(layout: &CoreLayout, p_readings: &Vec<Option<u64>>, e_readings: &Vec<Option<u64>>) -> (r: FreqReading)
    requires
        layout is Hybrid ==> p_list(*layout).len() + e_list(*layout).len() <= u64::MAX
            && mean_reading(p_readings@) * p_list(*layout).len() + mean_reading(e_readings@)
            * e_list(*layout).len() <= u64::MAX,
    ensures
        layout is Uniform ==> r.avg_khz == mean_reading(p_readings@) && (r.display matches FreqDisplay::Single(t)
            && t@ == ghz_text(mean_reading(p_readings@) as nat) + " GHz"@),
        layout is Hybrid ==> ({
            let p = mean_reading(p_readings@);
            let e = mean_reading(e_readings@);
            &&& r.avg_khz == weighted_mean(p, p_list(*layout).len() as int, e, e_list(*layout).len() as int)
            &&& (r.display matches FreqDisplay::Split(pt, et) && pt@ == "P:"@ + ghz_text(p as nat) && et@ == "E:"@ + ghz_text(e as nat))
        }),
{
    match layout {
        CoreLayout::Uniform { cpus } => {
            let khz = avg_freq_khz(p_readings);
            let mut t = khz_to_ghz_str(khz);
            t.append(" GHz");
            FreqReading { display: FreqDisplay::Single(t), avg_khz: khz }
        },
        CoreLayout::Hybrid { p_cpus, e_cpus } => {
            let p = avg_freq_khz(p_readings);
            let e = avg_freq_khz(e_readings);
            let avg = weighted_avg_khz(p, p_cpus.len() as u64, e, e_cpus.len() as u64);
            let mut pt = String::new();
            pt.append("P:");
            let pg = khz_to_ghz_str(p);
            pt.append(pg.as_str());
            let mut et = String::new();
            et.append("E:");
            let eg = khz_to_ghz_str(e);
            et.append(eg.as_str());
            FreqReading { display: FreqDisplay::Split(pt, et), avg_khz: avg }
        },
    }
}

// ── sparkline history ───────────────────────────────────────────────────

/// Number of samples the sparkline keeps (one per second).
pub const HISTORY_SIZE: usize = 24;

/// The history after appending `sample`: the newest `HISTORY_SIZE` of the
/// samples, oldest first.
pub open spec fn history_after(h: Seq<u64>, sample: u64) -> Seq<u64> {
    let n = h.push(sample);
    if n.len() > HISTORY_SIZE {
        n.subrange(n.len() - HISTORY_SIZE, n.len() as int)
    } else {
        n
    }
}

/// Appends a sample and drops the oldest ones beyond `HISTORY_SIZE`.
pub fn push_sample(history: &mut Vec<u64>, sample: u64)
    ensures
        final(history)@ == history_after(old(history)@, sample),
        final(history)@.len() <= HISTORY_SIZE,
        final(history)@.last() == sample,
{
    history.push(sample);
    let ghost full = history@;
    let ghost mut dropped: int = 0;
    while history.len() > HISTORY_SIZE
        invariant
            0 <= dropped <= full.len(),
            dropped == 0 || full.len() - dropped >= HISTORY_SIZE,
            history@ == full.subrange(dropped, full.len() as int),
            full.len() > 0,
            full.last() == sample,
        decreases history@.len(),
    {
        history.remove(0);
        proof {
            dropped = dropped + 1;
        }
    }
    proof {
        if dropped == 0 {
            assert(history@ =~= full);
        }
    }
}

} // verus!
