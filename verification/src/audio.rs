//! Volume and brightness: icons and colour classes by level, the scroll
//! step, the percent labels, the brightness reading parsed from a command's
//! output, and the bookkeeping of the device drop-downs.

use vstd::prelude::*;

use crate::json::{
    json_array_text, json_as_bool, json_as_str, json_as_u64, json_bool, json_field, json_first_value,
    json_get, json_object, json_string, json_u64, json_value, parse_json_array, JsonModel,
};
use crate::text::{
    chars_of, contains, dec, digits_value, is_digit, owned, pad_left, parse_u32, parse_unsigned,
    push_dec_padded, str_contains, str_eq, trim, trimmed,
};

verus! {

// ── volume ──────────────────────────────────────────────────────────────

/// The output's icon and colour class: muted (or at 0 %) shows the mute
/// icons, below 33 % low, below 66 % mid, else high.
pub fn icon_for_output(percent: u32, muted: bool) -> (r: (&'static str, &'static str))
    ensures
        muted ==> r == ("mute-symbolic", "volume-muted"),
        !muted && percent == 0 ==> r == ("unmute-symbolic", "volume-muted"),
        !muted && 0 < percent < 33 ==> r == ("volume-low-symbolic", "volume-low"),
        !muted && 33 <= percent < 66 ==> r == ("volume-low-symbolic", "volume-mid"),
        !muted && percent >= 66 ==> r == ("volume-high-symbolic", "volume-high"),
{
    if muted {
        ("mute-symbolic", "volume-muted")
    } else if percent == 0 {
        ("unmute-symbolic", "volume-muted")
    } else if percent < 33 {
        ("volume-low-symbolic", "volume-low")
    } else if percent < 66 {
        ("volume-low-symbolic", "volume-mid")
    } else {
        ("volume-high-symbolic", "volume-high")
    }
}

/// The microphone's icon.
pub fn icon_for_mic(muted: bool) -> (r: &'static str)
    ensures
        muted ==> r == "mic-off-symbolic",
        !muted ==> r == "mic-on-symbolic",
{
    if muted {
        "mic-off-symbolic"
    } else {
        "mic-on-symbolic"
    }
}

/// One scroll step: up raises by 5 up to 100, down lowers by 5 down to 0.
pub open spec fn scroll_step(cur: u32, up: bool) -> int {
    if up {
        if cur + 5 > 100 {
            100
        } else {
            cur + 5
        }
    } else if cur >= 5 {
        cur - 5
    } else {
        0
    }
}

/// A scroll step moves the level by exactly 5, up or down, and stops at
/// 100 and at 0.
pub proof fn law_scroll_step_is_five(cur: u32)
    ensures
        cur <= 95 ==> scroll_step(cur, true) == cur + 5,
        cur > 95 ==> scroll_step(cur, true) == 100,
        cur >= 5 ==> scroll_step(cur, false) == cur - 5,
        cur < 5 ==> scroll_step(cur, false) == 0,
{
}

pub fn scroll_volume(cur: u32, up: bool) -> (r: u32)
    requires
        up ==> cur <= u32::MAX - 5,
    ensures
        r == scroll_step(cur, up),
{
    if up {
        if cur + 5 > 100 {
            100
        } else {
            cur + 5
        }
    } else {
        cur.saturating_sub(5)
    }
}

/// A scroll up and one back down return to the level the scroll started
/// from unless the step up was cut at 100; a scroll down and one back up,
/// unless the step down was cut at 0. From a level of at most 100, a step
/// stays within 0 to 100.
pub proof fn law_scroll_round_trip(cur: u32)
    ensures
        cur <= 95 ==> scroll_step(scroll_step(cur, true) as u32, false) == cur,
        5 <= cur <= 100 ==> scroll_step(scroll_step(cur, false) as u32, true) == cur,
        cur <= 100 ==> 0 <= scroll_step(cur, true) <= 100 && 0 <= scroll_step(cur, false) <= 100,
{
}

/// `format!("{:>3}%", percent.min(999))`.
pub fn volume_label(percent: u32) -> (r: String)
    ensures
        r@ == pad_left(dec((if percent > 999 { 999 } else { percent }) as nat), 3) + "%"@,
{
    let p = if percent > 999 {
        999
    } else {
        percent
    };
    let mut s = String::new();
    push_dec_padded(&mut s, p as u64, 3);
    s.append("%");
    s
}

/// The brightness capsule's label: the reading right-aligned in three
/// columns and `%`, not capped (`format!("{:>3}%", percent)`).
pub fn brightness_label(percent: u32) -> (r: String)
    ensures
        r@ == pad_left(dec(percent as nat), 3) + "%"@,
{
    let mut s = String::new();
    push_dec_padded(&mut s, percent as u64, 3);
    s.append("%");
    s
}

/// The slider position for a level: at most 100.
pub fn slider_target(percent: u32) -> (r: u32)
    ensures
        r == (if percent > 100 { 100 } else { percent }),
{
    if percent > 100 {
        100
    } else {
        percent
    }
}

/// An audio device as the drop-downs list it.
#[derive(Clone, Debug, PartialEq, Eq)]
pub struct DeviceInfo {
    pub name: String,
    pub description: String,
}

/// The drop-down is rebuilt when its names differ from the devices' names
/// (in number or at some position).
pub fn need_rebuild(names: &Vec<String>, devices: &Vec<DeviceInfo>) -> (r: bool)
    ensures
        r == !(names@.len() == devices@.len() && forall|i: int|
            0 <= i < names@.len() ==> #[trigger] names@[i]@ == devices@[i].name@),
{
    if names.len() != devices.len() {
        return true;
    }
    for i in 0..names.len()
        invariant
            names@.len() == devices@.len(),
            forall|j: int| 0 <= j < i ==> #[trigger] names@[j]@ == devices@[j].name@,
    {
        if !str_eq(names[i].as_str(), devices[i].name.as_str()) {
            return true;
        }
    }
    false
}

/// The position of the default device among the drop-down's names.
pub fn selected_index(names: &Vec<String>, default_name: &str) -> (r: Option<usize>)
    ensures
        match r {
            Some(i) => i < names@.len() && names@[i as int]@ == default_name@ && forall|j: int|
                0 <= j < i ==> #[trigger] names@[j]@ != default_name@,
            None => forall|j: int| 0 <= j < names@.len() ==> #[trigger] names@[j]@ != default_name@,
        },
{
    for i in 0..names.len()
        invariant
            forall|j: int| 0 <= j < i ==> #[trigger] names@[j]@ != default_name@,
    {
        if str_eq(names[i].as_str(), default_name) {
            return Some(i);
        }
    }
    None
}

// ── brightness ──────────────────────────────────────────────────────────

/// `s` without its trailing characters that are not ASCII digits.
pub open spec fn drop_trailing_nondigits(s: Seq<char>) -> Seq<char>
    decreases s.len(),
{
    if s.len() > 0 && !is_digit(s.last()) {
        drop_trailing_nondigits(s.drop_last())
    } else {
        s
    }
}

/// The ASCII digits at the end of `s`.
pub open spec fn digit_suffix(s: Seq<char>) -> Seq<char>
    decreases s.len(),
{
    if s.len() > 0 && is_digit(s.last()) {
        digit_suffix(s.drop_last()).push(s.last())
    } else {
        Seq::<char>::empty()
    }
}

/// The last run of ASCII digits in `s` (empty when there is none).
pub open spec fn last_digit_run(s: Seq<char>) -> Seq<char> {
    digit_suffix(drop_trailing_nondigits(s))
}

/// The brightness in a command's output, whatever its format (`50%`,
/// `50`, `Current brightness: 50 (50%)`): the last run of digits in the
/// trimmed text as `u32`; 0 when there is none or it does not fit.
pub open spec fn brightness_of(output: Seq<char>) -> u32 {
    let run = last_digit_run(trim(output));
    if run.len() > 0 && digits_value(run) <= u32::MAX {
        digits_value(run) as u32
    } else {
        0
    }
}

proof fn lemma_digit_suffix_digits(s: Seq<char>)
    ensures
        crate::text::all_digits(digit_suffix(s)),
        digit_suffix(s).len() <= s.len(),
    decreases s.len(),
{
    if s.len() > 0 && is_digit(s.last()) {
        lemma_digit_suffix_digits(s.drop_last());
        let p = digit_suffix(s.drop_last());
        assert forall|i: int| 0 <= i < p.push(s.last()).len() implies #[trigger] is_digit(p.push(s.last())[i]) by {
            if i < p.len() {
                assert(p.push(s.last())[i] == p[i]);
            }
        }
    }
}

fn is_ascii_digit(c: char) -> (r: bool)
    ensures
        r == is_digit(c),
{
    let u = c as u32;
    0x30 <= u && u <= 0x39
}

/// The end of `t` once its trailing non-digits are dropped.
fn digits_end(t: &Vec<char>) -> (hi: usize)
    ensures
        hi <= t@.len(),
        drop_trailing_nondigits(t@) == t@.subrange(0, hi as int),
{
    let mut hi = t.len();
    assert(t@.subrange(0, hi as int) =~= t@);
    while hi > 0 && !is_ascii_digit(t[hi - 1])
        invariant
            hi <= t@.len(),
            drop_trailing_nondigits(t@) == drop_trailing_nondigits(t@.subrange(0, hi as int)),
        decreases hi,
    {
        assert(t@.subrange(0, hi as int).drop_last() =~= t@.subrange(0, hi - 1));
        hi = hi - 1;
    }
    if hi == 0 {
        assert(t@.subrange(0, 0) =~= Seq::<char>::empty());
    }
    hi
}

/// The start of the run of digits that ends at `hi`.
fn digits_start(t: &Vec<char>, hi: usize) -> (lo: usize)
    requires
        hi <= t@.len(),
    ensures
        lo <= hi,
        digit_suffix(t@.subrange(0, hi as int)) == t@.subrange(lo as int, hi as int),
{
    let mut lo = hi;
    assert(t@.subrange(hi as int, hi as int) =~= Seq::<char>::empty());
    while lo > 0 && is_ascii_digit(t[lo - 1])
        invariant
            lo <= hi <= t@.len(),
            digit_suffix(t@.subrange(0, hi as int)) == digit_suffix(t@.subrange(0, lo as int))
                + t@.subrange(lo as int, hi as int),
        decreases lo,
    {
        let ghost pre = t@.subrange(0, lo as int);
        let ghost d = digit_suffix(t@.subrange(0, lo - 1));
        assert(pre.drop_last() =~= t@.subrange(0, lo - 1));
        assert(digit_suffix(pre) == d.push(t@[lo - 1]));
        assert(d.push(t@[lo - 1]) + t@.subrange(lo as int, hi as int) =~= d + t@.subrange(lo - 1, hi as int));
        lo = lo - 1;
    }
    assert(digit_suffix(t@.subrange(0, lo as int)) =~= Seq::<char>::empty());
    assert(Seq::<char>::empty() + t@.subrange(lo as int, hi as int) =~= t@.subrange(lo as int, hi as int));
    lo
}

pub fn parse_brightness(output: &str) -> (r: u32)
    ensures
        r == brightness_of(output@),
{
    let t = trimmed(&chars_of(output));
    let hi = digits_end(&t);
    let lo = digits_start(&t, hi);
    let ghost run = t@.subrange(lo as int, hi as int);
    proof {
        assert(last_digit_run(trim(output@)) == run);
        lemma_digit_suffix_digits(drop_trailing_nondigits(trim(output@)));
    }
    if lo == hi {
        return 0;
    }
    proof {
        assert(is_digit(run[0]));
        assert(crate::text::unsigned_digits(run) == run);
    }
    match crate::text::parse_unsigned_range(&t, lo, hi, 0xffff_ffff) {
        Some(v) => v as u32,
        None => 0,
    }
}

/// The brightness icon file: low below 50 %, high from 50 %.
pub fn brightness_icon(percent: u32) -> (r: &'static str)
    ensures
        percent < 50 ==> r == "brightness-low.svg",
        percent >= 50 ==> r == "brightness-high.svg",
{
    if percent < 50 {
        "brightness-low.svg"
    } else {
        "brightness-high.svg"
    }
}

/// The panel's icon and colour class for a brightness.
pub fn brightness_icon_for(percent: u32) -> (r: (&'static str, &'static str))
    ensures
        percent < 50 ==> r == ("brightness-low-symbolic", "brightness-low"),
        percent >= 50 ==> r == ("brightness-high-symbolic", "brightness-high"),
{
    if percent < 50 {
        ("brightness-low-symbolic", "brightness-low")
    } else {
        ("brightness-high-symbolic", "brightness-high")
    }
}

/// What a brightness update writes in the panel.
#[derive(Clone, Debug, PartialEq, Eq)]
pub enum BrightnessRefresh {
    /// Neither the icon nor the level changed.
    Unchanged,
    /// Set the icon, class and label; move the slider to `slider` when it
    /// holds a value.
    Apply { icon: &'static str, class: &'static str, label: String, slider: Option<u32> },
}

/// A level as the widget shows it: at most 100.
pub open spec fn capped(v: u32) -> u32 {
    if v > 100 {
        100
    } else {
        v
    }
}

/// Whether an update from the shown level to a reading writes nothing: the
/// icon stays (both sides of 50 %) and the level stays.
pub open spec fn brightness_quiet(shown: u32, reading: u32) -> bool {
    (capped(shown) < 50) == (capped(reading) < 50) && shown == capped(reading)
}

/// The level shown after an update.
pub open spec fn brightness_after(shown: u32, reading: u32) -> u32 {
    if brightness_quiet(shown, reading) {
        shown
    } else {
        capped(reading)
    }
}

/// The update from the shown level `shown` to a new reading: the reading
/// is capped at 100; nothing is written when the icon and the level stay;
/// the slider moves only when the level changed. Returns the level now
/// shown with the writes.
pub fn brightness_refresh(shown: u32, reading: u32) -> (r: (u32, BrightnessRefresh))
    ensures
        r.0 == brightness_after(shown, reading),
        brightness_quiet(shown, reading) ==> r.1 is Unchanged,
        !brightness_quiet(shown, reading) ==> ({
            let new = capped(reading);
            &&& r.1 matches BrightnessRefresh::Apply { icon, class, label, slider }
            &&& (icon, class) == (if new < 50 { ("brightness-low-symbolic", "brightness-low") } else { ("brightness-high-symbolic", "brightness-high") })
            &&& label@ == pad_left(dec(new as nat), 3) + "%"@
            &&& slider == (if shown != new { Some(new) } else { None })
        }),
{
    let new = if reading > 100 {
        100
    } else {
        reading
    };
    let old = if shown > 100 {
        100
    } else {
        shown
    };
    let icon_changed = (old < 50) != (new < 50);
    let pct_changed = shown != new;
    if !icon_changed && !pct_changed {
        return (shown, BrightnessRefresh::Unchanged);
    }
    let (icon, class) = brightness_icon_for(new);
    let mut label = String::new();
    push_dec_padded(&mut label, new as u64, 3);
    label.append("%");
    let slider = if pct_changed {
        Some(new)
    } else {
        None
    };
    (new, BrightnessRefresh::Apply { icon, class, label, slider })
}

/// A reading that was just applied writes nothing when it comes again.
pub proof fn law_brightness_settles(shown: u32, reading: u32)
    ensures
        brightness_quiet(brightness_after(shown, reading), reading),
{
}

// ── the desktop bar's device lists (pactl's JSON) ───────────────────────

/// A sink or source as `pactl -f json list` describes it.
#[derive(Clone, Debug, PartialEq, Eq)]
pub struct AudioDevice {
    pub index: u32,
    pub name: String,
    pub description: String,
    pub volume_pct: u32,
    pub muted: bool,
    /// It is the default sink (or source).
    pub is_default: bool,
}

/// `s.trim_end_matches('%')`.
pub open spec fn trim_end_percent(s: Seq<char>) -> Seq<char>
    decreases s.len(),
{
    if s.len() > 0 && s.last() == '%' {
        trim_end_percent(s.drop_last())
    } else {
        s
    }
}

fn trimmed_end_percent(s: &Vec<char>) -> (r: Vec<char>)
    ensures
        r@ == trim_end_percent(s@),
{
    let mut hi = s.len();
    assert(s@.subrange(0, hi as int) =~= s@);
    while hi > 0 && s[hi - 1] == '%'
        invariant
            hi <= s.len(),
            trim_end_percent(s@) == trim_end_percent(s@.subrange(0, hi as int)),
        decreases hi,
    {
        assert(s@.subrange(0, hi as int).drop_last() =~= s@.subrange(0, hi - 1));
        hi = hi - 1;
    }
    crate::text::slice_vec(s, 0, hi)
}

/// A device as the contracts see it: index, name, description, volume,
/// muted, default.
pub open spec fn device_view(d: AudioDevice) -> (u32, Seq<char>, Seq<char>, u32, bool, bool) {
    (d.index, d.name@, d.description@, d.volume_pct, d.muted, d.is_default)
}

pub open spec fn opt_view(o: Option<String>) -> Option<Seq<char>> {
    match o {
        Some(s) => Some(s@),
        None => None,
    }
}

/// The fields read for a device; every one is needed, a source that is a
/// sink's monitor (its name contains `.monitor`) is skipped when
/// `skip_monitors`, and the volume (`value_percent` of the first channel,
/// such as `45%`) must parse.
pub open spec fn device_ok(
    index: Option<u64>,
    name: Option<Seq<char>>,
    description: Option<Seq<char>>,
    mute: Option<bool>,
    volume: Option<Seq<char>>,
    skip_monitors: bool,
) -> bool {
    &&& index is Some
    &&& name is Some
    &&& description is Some
    &&& mute is Some
    &&& volume is Some
    &&& !(skip_monitors && contains(name->0, ".monitor"@))
    &&& parse_unsigned(trim_end_percent(volume->0), u32::MAX as nat) is Some
}

/// The device those fields describe: the index taken as `u32` (wrapping),
/// the volume's number, and whether its name is the default's.
pub open spec fn device_spec(
    index: Option<u64>,
    name: Option<Seq<char>>,
    description: Option<Seq<char>>,
    mute: Option<bool>,
    volume: Option<Seq<char>>,
    default_name: Seq<char>,
    skip_monitors: bool,
) -> Option<(u32, Seq<char>, Seq<char>, u32, bool, bool)> {
    if device_ok(index, name, description, mute, volume, skip_monitors) {
        Some(
            (
                (index->0 % 0x1_0000_0000) as u32,
                name->0,
                description->0,
                parse_unsigned(trim_end_percent(volume->0), u32::MAX as nat)->0 as u32,
                mute->0,
                name->0 == default_name,
            ),
        )
    } else {
        None
    }
}

/// A device from the fields read out of its JSON object (`None` for a
/// field that is missing or of another type).
pub fn device_from_fields(
    index: Option<u64>,
    name: Option<String>,
    description: Option<String>,
    mute: Option<bool>,
    volume: Option<String>,
    default_name: &str,
    skip_monitors: bool,
) -> (r: Option<AudioDevice>)
    ensures
        match r {
            Some(d) => device_spec(index, opt_view(name), opt_view(description), mute, opt_view(volume), default_name@, skip_monitors)
                == Some(device_view(d)),
            None => device_spec(index, opt_view(name), opt_view(description), mute, opt_view(volume), default_name@, skip_monitors)
                is None,
        },
{
    let name = match name {
        Some(n) => n,
        None => return None,
    };
    if skip_monitors && str_contains(name.as_str(), ".monitor") {
        return None;
    }
    let index = match index {
        Some(i) => i,
        None => return None,
    };
    let description = match description {
        Some(d) => d,
        None => return None,
    };
    let muted = match mute {
        Some(m) => m,
        None => return None,
    };
    let vol = match volume {
        Some(v) => v,
        None => return None,
    };
    let volume_pct = match parse_u32(&trimmed_end_percent(&chars_of(vol.as_str()))) {
        Some(v) => v,
        None => return None,
    };
    let is_default = str_eq(name.as_str(), default_name);
    Some(AudioDevice { index: (index % 0x1_0000_0000) as u32, name, description, volume_pct, muted, is_default })
}

/// A string field of an object.
pub open spec fn str_field(v: JsonModel, key: Seq<char>) -> Option<Seq<char>> {
    match json_field(v, key) {
        Some(f) => json_as_str(f),
        None => None,
    }
}

/// The `value_percent` of the first channel of the `volume` object.
pub open spec fn channel_percent(v: JsonModel) -> Option<Seq<char>> {
    match json_field(v, "volume"@) {
        Some(JsonModel::Object(es)) => if es.len() > 0 {
            str_field(es[0].value, "value_percent"@)
        } else {
            None
        },
        _ => None,
    }
}

/// The device one element of `pactl`'s JSON array describes.
pub open spec fn json_device(v: JsonModel, default_name: Seq<char>, skip_monitors: bool) -> Option<
    (u32, Seq<char>, Seq<char>, u32, bool, bool),
> {
    device_spec(
        match json_field(v, "index"@) {
            Some(f) => json_as_u64(f),
            None => None,
        },
        str_field(v, "name"@),
        str_field(v, "description"@),
        match json_field(v, "mute"@) {
            Some(f) => json_as_bool(f),
            None => None,
        },
        channel_percent(v),
        default_name,
        skip_monitors,
    )
}

/// The devices the elements describe, in order.
pub open spec fn devices_of(vs: Seq<JsonModel>, default_name: Seq<char>, skip_monitors: bool) -> Seq<
    (u32, Seq<char>, Seq<char>, u32, bool, bool),
>
    decreases vs.len(),
{
    if vs.len() == 0 {
        Seq::empty()
    } else {
        let rest = devices_of(vs.drop_last(), default_name, skip_monitors);
        match json_device(vs.last(), default_name, skip_monitors) {
            Some(d) => rest.push(d),
            None => rest,
        }
    }
}

fn field_u64(v: &serde_json::Value, key: &str) -> (r: Option<u64>)
    ensures
        r == match json_field(json_value(*v), key@) {
            Some(f) => json_as_u64(f),
            None => None,
        },
{
    match json_get(v, key) {
        Some(f) => json_u64(f),
        None => None,
    }
}

fn field_string(v: &serde_json::Value, key: &str) -> (r: Option<String>)
    ensures
        opt_view(r) == str_field(json_value(*v), key@),
{
    match json_get(v, key) {
        Some(f) => json_string(f),
        None => None,
    }
}

fn field_bool(v: &serde_json::Value, key: &str) -> (r: Option<bool>)
    ensures
        r == match json_field(json_value(*v), key@) {
            Some(f) => json_as_bool(f),
            None => None,
        },
{
    match json_get(v, key) {
        Some(f) => json_bool(f),
        None => None,
    }
}

fn first_channel_percent(v: &serde_json::Value) -> (r: Option<String>)
    ensures
        opt_view(r) == channel_percent(json_value(*v)),
{
    match json_get(v, "volume") {
        Some(vol) => match json_object(vol) {
            Some(m) => match json_first_value(m) {
                Some(ch) => field_string(ch, "value_percent"),
                None => None,
            },
            None => None,
        },
        None => None,
    }
}

/// The devices in the output of `pactl -f json list sinks` (or `sources`,
/// with `skip_monitors`): each element that has every field (see
/// `device_from_fields`), in order; none when the output is not a JSON
/// array.
pub fn devices_from_json(bytes: &[u8], default_name: &str, skip_monitors: bool) -> (r: Vec<AudioDevice>)
    ensures
        r@.map_values(|d: AudioDevice| device_view(d)) == match json_array_text(bytes@) {
            Some(vs) => devices_of(vs, default_name@, skip_monitors),
            None => Seq::empty(),
        },
{
    let items = match parse_json_array(bytes) {
        Some(v) => v,
        None => {
            let out: Vec<AudioDevice> = Vec::new();
            assert(out@.map_values(|d: AudioDevice| device_view(d)) =~= Seq::empty());
            return out;
        },
    };
    let ghost vs = items@.map_values(|v: serde_json::Value| json_value(v));
    let mut out: Vec<AudioDevice> = Vec::new();
    assert(out@.map_values(|d: AudioDevice| device_view(d)) =~= devices_of(vs.take(0), default_name@, skip_monitors));
    for i in 0..items.len()
        invariant
            vs == items@.map_values(|v: serde_json::Value| json_value(v)),
            json_array_text(bytes@) == Some(vs),
            out@.map_values(|d: AudioDevice| device_view(d)) == devices_of(vs.take(i as int), default_name@, skip_monitors),
    {
        let v = &items[i];
        let d = device_from_fields(
            field_u64(v, "index"),
            field_string(v, "name"),
            field_string(v, "description"),
            field_bool(v, "mute"),
            first_channel_percent(v),
            default_name,
            skip_monitors,
        );
        proof {
            assert(vs.take(i + 1).drop_last() =~= vs.take(i as int));
            assert(vs.take(i + 1).last() == json_value(*v));
        }
        let ghost before = out@;
        match d {
            Some(dev) => {
                out.push(dev);
                assert(out@.map_values(|d: AudioDevice| device_view(d)) =~= before.map_values(
                    |d: AudioDevice| device_view(d),
                ).push(device_view(dev)));
            },
            None => {},
        }
    }
    assert(vs.take(items@.len() as int) =~= vs);
    out
}

/// `wpctl get-volume` marks a muted sink with `[MUTED]`.
pub fn is_muted(wpctl_output: &str) -> (r: bool)
    ensures
        r == contains(wpctl_output@, "[MUTED]"@),
{
    str_contains(wpctl_output, "[MUTED]")
}

/// A line of `pactl subscribe` after which the audio state is read again:
/// it mentions a sink or the server.
pub fn audio_event_triggers(line: &str) -> (r: bool)
    ensures
        r == (contains(line@, "sink"@) || contains(line@, "server"@)),
{
    str_contains(line, "sink") || str_contains(line, "server")
}

} // verus!
