//! Caps Lock indicator: the evdev ioctl request numbers, the capability
//! and LED bit tests, decoding the kernel's input events, and choosing the
//! keyboard device.

use vstd::prelude::*;

use crate::text::{chars_of, has_prefix, starts_with};

verus! {

/// Event type of LED events.
pub const EV_LED: u16 = 0x11;

/// The Caps Lock LED.
pub const LED_CAPSL: u16 = 0x01;

/// Size in bytes of a `struct input_event` on 64-bit Linux: two `i64`
/// for the time, then `u16` type, `u16` code and `i32` value.
pub const INPUT_EVENT_SIZE: usize = 24;

// ── ioctl request numbers ───────────────────────────────────────────────

/// The `_IOC_READ` direction.
pub const IOC_READ: u64 = 2;

/// The evdev ioctl type, `'E'`.
pub const EVTYPE: u64 = 0x45;

/// Linux `_IOC(dir, type, nr, size)`.
pub open spec fn ioc_spec(dir: u64, ty: u64, nr: u64, size: u64) -> u64 {
    (dir << 30u64) | (ty << 8u64) | nr | (size << 16u64)
}

pub fn ioc(dir: u64, ty: u64, nr: u64, size: u64) -> (r: u64)
    ensures
        r == ioc_spec(dir, ty, nr, size),
{
    (dir << 30u64) | (ty << 8u64) | nr | (size << 16u64)
}

/// `EVIOCGBIT(ev, len)`: the capability bits for event type `ev`.
pub fn eviocgbit(ev: u16, len: u64) -> (r: u64)
    ensures
        r == ioc_spec(IOC_READ, EVTYPE, (0x20 + ev) as u64, len),
{
    ioc(IOC_READ, EVTYPE, 0x20 + ev as u64, len)
}

/// `EVIOCGLED(len)`: the current LED bits.
pub fn eviocgled(len: u64) -> (r: u64)
    ensures
        r == ioc_spec(IOC_READ, EVTYPE, 0x19, len),
{
    ioc(IOC_READ, EVTYPE, 0x19, len)
}

// ── bits ────────────────────────────────────────────────────────────────

/// Bit `bit` of a little-endian bit array.
pub open spec fn bit_set(bits: Seq<u8>, bit: int) -> bool {
    bits[bit / 8] & (1u8 << ((bit % 8) as u8)) != 0
}

pub fn test_bit(bits: &[u8], bit: u16) -> (r: bool)
    requires
        (bit / 8) < bits@.len(),
    ensures
        r == bit_set(bits@, bit as int),
{
    let byte = bits[(bit / 8) as usize];
    let sh = (bit % 8) as u8;
    byte & (1u8 << sh) != 0
}

/// A device reports Caps Lock when its event-type bits (read with
/// `EVIOCGBIT(0, 4)`) include `EV_LED` and its LED bits (read with
/// `EVIOCGBIT(EV_LED, 1)`) include `LED_CAPSL`; a failed ioctl (`None`)
/// rules it out.
pub fn has_capslock_led(ev_bits: Option<&[u8]>, led_bits: Option<&[u8]>) -> (r: bool)
    ensures
        r == (match (ev_bits, led_bits) {
            (Some(e), Some(l)) => e@.len() > EV_LED / 8 && l@.len() > 0 && bit_set(e@, EV_LED as int) && bit_set(l@, LED_CAPSL as int),
            _ => false,
        }),
{
    match (ev_bits, led_bits) {
        (Some(e), Some(l)) => {
            if e.len() <= (EV_LED / 8) as usize || l.len() == 0 {
                return false;
            }
            test_bit(e, EV_LED) && test_bit(l, LED_CAPSL)
        },
        _ => false,
    }
}

/// The Caps Lock state from `EVIOCGLED`: off when the ioctl failed
/// (`None`), else the `LED_CAPSL` bit of the first byte.
pub fn read_led_state(bits0: Option<u8>) -> (r: bool)
    ensures
        r == (match bits0 {
            Some(b) => bit_set(seq![b], LED_CAPSL as int),
            None => false,
        }),
{
    match bits0 {
        Some(b) => b & (1u8 << 1u8) != 0,
        None => false,
    }
}

// ── events ──────────────────────────────────────────────────────────────

/// A decoded input event: type, code, value.
#[derive(Clone, Copy, Debug, PartialEq, Eq, Structural)]
pub struct InputEvent {
    pub type_: u16,
    pub code: u16,
    pub value: i32,
}

pub open spec fn le_u16(b0: u8, b1: u8) -> u16 {
    (b0 as u16) | ((b1 as u16) << 8u16)
}

pub open spec fn le_u32(b0: u8, b1: u8, b2: u8, b3: u8) -> u32 {
    (b0 as u32) | ((b1 as u32) << 8u32) | ((b2 as u32) << 16u32) | ((b3 as u32) << 24u32)
}

/// The event in a 24-byte record as the kernel writes it on a
/// little-endian machine; `None` for a short read.
pub open spec fn decode_event_spec(buf: Seq<u8>) -> Option<InputEvent> {
    if buf.len() != INPUT_EVENT_SIZE {
        None
    } else {
        Some(InputEvent {
            type_: le_u16(buf[16], buf[17]),
            code: le_u16(buf[18], buf[19]),
            value: le_u32(buf[20], buf[21], buf[22], buf[23]) as i32,
        })
    }
}

pub fn decode_event(buf: &[u8]) -> (r: Option<InputEvent>)
    ensures
        r == decode_event_spec(buf@),
{
    if buf.len() != INPUT_EVENT_SIZE {
        return None;
    }
    let t = (buf[16] as u16) | ((buf[17] as u16) << 8u16);
    let c = (buf[18] as u16) | ((buf[19] as u16) << 8u16);
    let v = (buf[20] as u32) | ((buf[21] as u32) << 8u32) | ((buf[22] as u32) << 16u32) | ((buf[23] as u32) << 24u32);
    Some(InputEvent { type_: t, code: c, value: v as i32 })
}

/// The state the last Caps Lock LED event among `evs` sets, if any.
pub open spec fn last_capslock(evs: Seq<InputEvent>) -> Option<bool>
    decreases evs.len(),
{
    if evs.len() == 0 {
        None
    } else if evs.last().type_ == EV_LED && evs.last().code == LED_CAPSL {
        Some(evs.last().value != 0)
    } else {
        last_capslock(evs.drop_last())
    }
}

/// After draining the pending events: the state of the last Caps Lock LED
/// event, or `None` when there was none.
pub fn capslock_from_events(evs: &Vec<InputEvent>) -> (r: Option<bool>)
    ensures
        r == last_capslock(evs@),
{
    let mut state: Option<bool> = None;
    for i in 0..evs.len()
        invariant
            state == last_capslock(evs@.take(i as int)),
    {
        proof {
            assert(evs@.take(i + 1).drop_last() =~= evs@.take(i as int));
        }
        let e = evs[i];
        if e.type_ == EV_LED && e.code == LED_CAPSL {
            state = Some(e.value != 0);
        }
    }
    assert(evs@.take(evs@.len() as int) =~= evs@);
    state
}

// ── devices ─────────────────────────────────────────────────────────────

/// `a` sorts strictly before `b` (character by character).
pub open spec fn lex_lt(a: Seq<char>, b: Seq<char>) -> bool
    decreases a.len(),
{
    if b.len() == 0 {
        false
    } else if a.len() == 0 {
        true
    } else if a[0] != b[0] {
        a[0] < b[0]
    } else {
        lex_lt(a.drop_first(), b.drop_first())
    }
}

pub fn lex_less(a: &Vec<char>, b: &Vec<char>) -> (r: bool)
    ensures
        r == lex_lt(a@, b@),
{
    let mut i: usize = 0;
    assert(a@.skip(0) =~= a@ && b@.skip(0) =~= b@);
    while i < a.len() && i < b.len() && a[i] == b[i]
        invariant
            i <= a@.len(),
            i <= b@.len(),
            lex_lt(a@, b@) == lex_lt(a@.skip(i as int), b@.skip(i as int)),
        decreases a@.len() - i,
    {
        assert(a@.skip(i as int).drop_first() =~= a@.skip(i + 1));
        assert(b@.skip(i as int).drop_first() =~= b@.skip(i + 1));
        i = i + 1;
    }
    if i == b.len() {
        false
    } else if i == a.len() {
        true
    } else {
        a[i] < b[i]
    }
}

pub proof fn lemma_lex_asym(a: Seq<char>, b: Seq<char>)
    ensures
        !(lex_lt(a, b) && lex_lt(b, a)),
    decreases a.len(),
{
    if a.len() > 0 && b.len() > 0 && a[0] == b[0] {
        lemma_lex_asym(a.drop_first(), b.drop_first());
    }
}

pub proof fn lemma_lex_trans(a: Seq<char>, b: Seq<char>, c: Seq<char>)
    requires
        lex_lt(a, b),
        lex_lt(b, c),
    ensures
        lex_lt(a, c),
    decreases a.len(),
{
    if a.len() > 0 && b.len() > 0 && c.len() > 0 && a[0] == b[0] && b[0] == c[0] {
        lemma_lex_trans(a.drop_first(), b.drop_first(), c.drop_first());
    }
}

pub proof fn lemma_lex_total(a: Seq<char>, b: Seq<char>)
    ensures
        lex_lt(a, b) || a == b || lex_lt(b, a),
    decreases a.len(),
{
    if a.len() > 0 && b.len() > 0 && a[0] == b[0] {
        lemma_lex_total(a.drop_first(), b.drop_first());
        if a.drop_first() == b.drop_first() {
            assert(a =~= seq![a[0]] + a.drop_first());
            assert(b =~= seq![b[0]] + b.drop_first());
        }
    } else if a.len() == 0 && b.len() == 0 {
        assert(a =~= b);
    }
}

/// The `/dev/input` entries probed for the Caps Lock LED: those named
/// `event*`, by name.
pub open spec fn is_event_node(name: Seq<char>) -> bool {
    starts_with(name, "event"@)
}

/// The positions of the `event*` entries, ordered by name (entries with
/// the same name keep their order).
pub fn event_nodes_by_name(names: &Vec<String>) -> (r: Vec<usize>)
    ensures
        forall|a: int| 0 <= a < r@.len() ==> #[trigger] r@[a] < names@.len() && is_event_node(names@[r@[a] as int]@),
        forall|j: int| 0 <= j < names@.len() && is_event_node(names@[j]@) ==> #[trigger] r@.contains(j as usize),
        forall|a: int, b: int| 0 <= a < b < r@.len() ==> !lex_lt(names@[#[trigger] r@[b] as int]@, names@[#[trigger] r@[a] as int]@),
{
    let key = chars_of("event");
    let mut r: Vec<usize> = Vec::new();
    for i in 0..names.len()
        invariant
            key@ == "event"@,
            forall|a: int| 0 <= a < r@.len() ==> #[trigger] r@[a] < i && is_event_node(names@[r@[a] as int]@),
            forall|j: int| 0 <= j < i && is_event_node(names@[j]@) ==> #[trigger] r@.contains(j as usize),
            forall|a: int, b: int| 0 <= a < b < r@.len() ==> !lex_lt(names@[#[trigger] r@[b] as int]@, names@[#[trigger] r@[a] as int]@),
    {
        let name = chars_of(names[i].as_str());
        if has_prefix(&name, &key) {
            let mut p: usize = r.len();
            // Insert after every entry that does not sort after this one.
            while p > 0 && lex_less(&name, &chars_of(names[r[p - 1]].as_str()))
                invariant
                    p <= r@.len(),
                    i < names@.len(),
                    name@ == names@[i as int]@,
                    forall|a: int| 0 <= a < r@.len() ==> #[trigger] r@[a] < i,
                    forall|a: int| p <= a < r@.len() ==> lex_lt(name@, names@[#[trigger] r@[a] as int]@),
                    p < r@.len() ==> lex_lt(name@, names@[r@[p as int] as int]@),
                decreases p,
            {
                p = p - 1;
            }
            let ghost old_r = r@;
            r.insert(p, i);
            proof {
                old_r.insert_ensures(p as int, i);
                let nm = names@[i as int]@;
                // Everything before the new position does not sort after it.
                assert forall|a: int| 0 <= a < p implies !lex_lt(nm, names@[#[trigger] old_r[a] as int]@) by {
                    let y = names@[old_r[p - 1] as int]@;
                    let x = names@[old_r[a] as int]@;
                    assert(!lex_lt(nm, y));
                    if a < p - 1 {
                        assert(!lex_lt(y, x));
                        if lex_lt(nm, x) {
                            lemma_lex_total(x, y);
                            if lex_lt(x, y) {
                                lemma_lex_trans(nm, x, y);
                            }
                        }
                    }
                }
                assert forall|a: int| p <= a < old_r.len() implies !lex_lt(names@[#[trigger] old_r[a] as int]@, nm) by {
                    lemma_lex_asym(nm, names@[old_r[a] as int]@);
                }
                assert forall|a: int, b: int| 0 <= a < b < r@.len() implies !lex_lt(names@[#[trigger] r@[b] as int]@, names@[#[trigger] r@[a] as int]@) by {
                    if b < p {
                        assert(r@[a] == old_r[a] && r@[b] == old_r[b]);
                    } else if b == p {
                        assert(r@[a] == old_r[a]);
                    } else if a < p {
                        assert(r@[a] == old_r[a] && r@[b] == old_r[b - 1]);
                        if lex_lt(names@[old_r[b - 1] as int]@, names@[old_r[a] as int]@) {
                            // old_r[a] <= nm < old_r[b - 1]: contradiction with the order above.
                            assert(!lex_lt(nm, names@[old_r[a] as int]@));
                            assert(lex_lt(nm, names@[old_r[b - 1] as int]@));
                            lemma_lex_total(nm, names@[old_r[a] as int]@);
                            if lex_lt(names@[old_r[a] as int]@, nm) {
                                lemma_lex_trans(names@[old_r[b - 1] as int]@, names@[old_r[a] as int]@, nm);
                                lemma_lex_asym(nm, names@[old_r[b - 1] as int]@);
                            } else {
                                lemma_lex_asym(nm, names@[old_r[b - 1] as int]@);
                            }
                        }
                    } else if a == p {
                        assert(r@[b] == old_r[b - 1]);
                    } else {
                        assert(r@[a] == old_r[a - 1] && r@[b] == old_r[b - 1]);
                    }
                }
                assert forall|j: int| 0 <= j < i + 1 && is_event_node(names@[j]@) implies #[trigger] r@.contains(j as usize) by {
                    if j == i {
                        assert(r@[p as int] == i);
                    } else {
                        assert(old_r.contains(j as usize));
                        let k = choose|k: int| 0 <= k < old_r.len() && old_r[k] == j as usize;
                        if k < p {
                            assert(r@[k] == j as usize);
                        } else {
                            assert(r@[k + 1] == j as usize);
                        }
                    }
                }
            }
        }
    }
    r
}

} // verus!
