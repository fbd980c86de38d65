//! The controls of one device section of the audio popover (output or
//! input): an upper-cased header, a level slider with a percent label, a
//! mute toggle and a device drop-down.
//!
//! The toolkit hands each user interaction and each timer expiry to
//! `section_step`, which updates the section's drag state and says what to
//! do: set the label, restart the release and send timers, send a level,
//! toggle mute or make a device the default. While the section is being
//! refreshed from the audio state (`suppressed`), the controls only echo
//! the level in the label.
//!
//! Timers are restarted, not stacked: a new slider move cancels the pending
//! release and send timers and starts them afresh, so only the last level
//! of a drag is sent.

use vstd::prelude::*;

use crate::audio::{opt_view, slider_target, volume_label};
use crate::text::{dec, pad_left};

verus! {

/// Time after the last slider move at which the drag is over.
pub const DRAG_RELEASE_MS: u64 = 150;

/// Delay before a moved level is sent; each move restarts it.
pub const SEND_DEBOUNCE_MS: u64 = 30;

#[derive(Clone, Copy, Debug, PartialEq, Eq, Structural)]
pub struct SectionControl {
    /// The user is moving the slider; level updates leave it in place.
    pub dragging: bool,
    /// The level the send timer will deliver.
    pub pending_send: Option<u32>,
}

#[derive(Clone, Copy, Debug, PartialEq, Eq, Structural)]
pub enum SectionEvent {
    /// The slider's value changed to this level (rounded).
    SliderMoved(u32),
    /// The release timer (`DRAG_RELEASE_MS`) fired.
    ReleaseTimer,
    /// The send timer (`SEND_DEBOUNCE_MS`) fired.
    SendTimer,
    /// The mute toggle was flipped.
    MuteToggled,
    /// The drop-down's selection moved to this row.
    DeviceSelected(usize),
}

/// What the section must do after an event.
#[derive(Clone, Debug, PartialEq, Eq)]
pub struct SectionEffects {
    /// New text of the percent label.
    pub label: Option<String>,
    /// Cancel the release timer and start it again.
    pub restart_release_timer: bool,
    /// Cancel the send timer and start it again.
    pub restart_send_timer: bool,
    /// Send this level to the device.
    pub set_volume: Option<u32>,
    /// Toggle the device's mute.
    pub toggle_mute: bool,
    /// Make the device of this name the default.
    pub set_default: Option<String>,
}

/// The percent label's text for a level: `format!("{:>3}%", v.min(999))`.
pub open spec fn level_text(v: u32) -> Seq<char> {
    pad_left(dec((if v > 999 { 999 } else { v }) as nat), 3) + "%"@
}

/// The section's drag state after an event.
pub open spec fn section_after(s: SectionControl, e: SectionEvent, suppressed: bool) -> SectionControl {
    match e {
        SectionEvent::SliderMoved(v) => if suppressed {
            s
        } else {
            SectionControl { dragging: true, pending_send: Some(v) }
        },
        SectionEvent::ReleaseTimer => SectionControl { dragging: false, ..s },
        SectionEvent::SendTimer => SectionControl { pending_send: None, ..s },
        _ => s,
    }
}

/// The level sent: the pending one, when the send timer fires.
pub open spec fn volume_sent(s: SectionControl, e: SectionEvent) -> Option<u32> {
    match e {
        SectionEvent::SendTimer => s.pending_send,
        _ => None,
    }
}

/// Mute is toggled when the user flips the toggle outside a refresh.
pub open spec fn mute_toggled(e: SectionEvent, suppressed: bool) -> bool {
    e is MuteToggled && !suppressed
}

/// Both timers restart when the user moves the slider outside a refresh.
pub open spec fn timers_restarted(e: SectionEvent, suppressed: bool) -> bool {
    e is SliderMoved && !suppressed
}

/// The device made default: the one at the selected row, when the user
/// selects a row that exists outside a refresh.
pub open spec fn default_chosen(e: SectionEvent, suppressed: bool, names: Seq<String>) -> Option<
    Seq<char>,
> {
    match e {
        SectionEvent::DeviceSelected(i) => if !suppressed && i < names.len() {
            Some(names[i as int]@)
        } else {
            None
        },
        _ => None,
    }
}

impl SectionControl {
    /// Not dragging, nothing pending.
    pub fn new() -> (r: Self)
        ensures
            !r.dragging,
            r.pending_send is None,
    {
        SectionControl { dragging: false, pending_send: None }
    }
}

/// Applies an event to a section whose drop-down lists the devices `names`.
pub fn section_step(
    state: &mut SectionControl,
    e: SectionEvent,
    suppressed: bool,
    names: &Vec<String>,
) -> (r: SectionEffects)
    ensures
        *final(state) == section_after(*old(state), e, suppressed),
        r.set_volume == volume_sent(*old(state), e),
        r.toggle_mute == mute_toggled(e, suppressed),
        r.restart_release_timer == timers_restarted(e, suppressed),
        r.restart_send_timer == timers_restarted(e, suppressed),
        opt_view(r.set_default) == default_chosen(e, suppressed, names@),
        match e {
            SectionEvent::SliderMoved(v) => opt_view(r.label) == Some(level_text(v)),
            _ => r.label is None,
        },
{
    let mut fx = SectionEffects {
        label: None,
        restart_release_timer: false,
        restart_send_timer: false,
        set_volume: None,
        toggle_mute: false,
        set_default: None,
    };
    match e {
        SectionEvent::SliderMoved(v) => {
            fx.label = Some(volume_label(v));
            if !suppressed {
                state.dragging = true;
                state.pending_send = Some(v);
                fx.restart_release_timer = true;
                fx.restart_send_timer = true;
            }
        },
        SectionEvent::ReleaseTimer => {
            state.dragging = false;
        },
        SectionEvent::SendTimer => {
            fx.set_volume = state.pending_send;
            state.pending_send = None;
        },
        SectionEvent::MuteToggled => {
            fx.toggle_mute = !suppressed;
        },
        SectionEvent::DeviceSelected(i) => {
            if !suppressed && i < names.len() {
                fx.set_default = Some(names[i].clone());
            }
        },
    }
    fx
}

/// Where a level update puts the slider: nowhere while the user drags it,
/// else at the level capped at 100.
pub open spec fn slider_write_of(dragging: bool, percent: u32) -> Option<u32> {
    if dragging {
        None
    } else {
        Some(if percent > 100 { 100 } else { percent })
    }
}

/// The slider position a level update writes, if any.
pub fn slider_write(dragging: bool, percent: u32) -> (r: Option<u32>)
    ensures
        r == slider_write_of(dragging, percent),
{
    if dragging {
        None
    } else {
        Some(slider_target(percent))
    }
}

/// What `str::to_uppercase` gives (Unicode upper case).
pub uninterp spec fn unicode_upper(s: Seq<char>) -> Seq<char>;

/// Calls `str::to_uppercase`; its result, Unicode upper-casing, is named,
/// not stated.
#[verifier::external_body]
fn to_uppercase(s: &str) -> (r: String)
    ensures
        r@ == unicode_upper(s@),
{
    s.to_uppercase()
}

/// The section's header: its title in upper case.
pub fn section_header(title: &str) -> (r: String)
    ensures
        r@ == unicode_upper(title@),
{
    to_uppercase(title)
}

/// During a refresh the user controls are inert: a slider move only
/// relabels, and a mute flip or a drop-down selection does nothing; the
/// drag state stays as it was.
pub proof fn law_refresh_is_inert(s: SectionControl, e: SectionEvent, names: Seq<String>)
    requires
        !(e is ReleaseTimer),
        !(e is SendTimer),
    ensures
        section_after(s, e, true) == s,
        volume_sent(s, e) is None,
        !mute_toggled(e, true),
        !timers_restarted(e, true),
        default_chosen(e, true, names) is None,
{
}

/// Only the last level of a drag is sent, and only once: after moves to `a`
/// and then `b`, the send timer delivers `b` and leaves nothing pending.
pub proof fn law_last_level_sent_once(s: SectionControl, a: u32, b: u32, suppressed: bool)
    ensures
        ({
            let s2 = section_after(
                section_after(s, SectionEvent::SliderMoved(a), false),
                SectionEvent::SliderMoved(b),
                false,
            );
            let s3 = section_after(s2, SectionEvent::SendTimer, suppressed);
            &&& volume_sent(s2, SectionEvent::SendTimer) == Some(b)
            &&& s3.pending_send is None
            &&& volume_sent(s3, SectionEvent::SendTimer) is None
        }),
{
}

/// A drag holds the slider: after a user move, level updates leave it in
/// place until the release timer fires; after that they move it to the
/// level (capped at 100).
pub proof fn law_drag_holds_slider(s: SectionControl, v: u32, percent: u32, suppressed: bool)
    ensures
        slider_write_of(section_after(s, SectionEvent::SliderMoved(v), false).dragging, percent)
            is None,
        slider_write_of(
            section_after(s, SectionEvent::ReleaseTimer, suppressed).dragging,
            percent,
        ) == Some(if percent > 100 { 100u32 } else { percent }),
{
}

} // verus!
