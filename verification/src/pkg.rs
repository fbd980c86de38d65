//! Package updates: which package manager the distribution uses, which
//! commands are asked, how their output is counted, and what the widget
//! shows for the total.

use vstd::prelude::*;

use crate::text::{
    chars_of, contains, dec, has_prefix, has_substring, lines, push_dec, split_lines, starts_with,
    views,
};

verus! {

// ── the count ───────────────────────────────────────────────────────────

/// Pending updates by source.
#[derive(Clone, Copy, Debug, PartialEq, Eq, Structural)]
pub struct UpdateState {
    pub official: u32,
    pub aur: u32,
    pub flatpak: u32,
}

impl UpdateState {
    /// The number of pending updates.
    pub fn total(&self) -> (r: u32)
        requires
            self.official + self.aur + self.flatpak <= u32::MAX,
        ensures
            r == self.official + self.aur + self.flatpak,
    {
        self.official + self.aur + self.flatpak
    }
}

// ── distribution ────────────────────────────────────────────────────────

#[derive(Clone, Copy, Debug, PartialEq, Eq, Structural)]
pub enum Distro {
    Arch,
    Debian,
    Fedora,
}

/// The probes, in the order they are tried: four release files, then
/// three commands looked up on the `PATH`.
#[derive(Clone, Copy, Debug, PartialEq, Eq, Structural)]
pub enum DistroProbe {
    ArchRelease,
    DebianVersion,
    FedoraRelease,
    RedhatRelease,
    CmdPacman,
    CmdApt,
    CmdDnf,
}

/// The distribution a probe that succeeds tells.
pub open spec fn probe_distro(p: DistroProbe) -> Distro {
    match p {
        DistroProbe::ArchRelease => Distro::Arch,
        DistroProbe::DebianVersion => Distro::Debian,
        DistroProbe::FedoraRelease => Distro::Fedora,
        DistroProbe::RedhatRelease => Distro::Fedora,
        DistroProbe::CmdPacman => Distro::Arch,
        DistroProbe::CmdApt => Distro::Debian,
        DistroProbe::CmdDnf => Distro::Fedora,
    }
}

/// The probe tried after `p`, if any.
pub open spec fn probe_after(p: DistroProbe) -> Option<DistroProbe> {
    match p {
        DistroProbe::ArchRelease => Some(DistroProbe::DebianVersion),
        DistroProbe::DebianVersion => Some(DistroProbe::FedoraRelease),
        DistroProbe::FedoraRelease => Some(DistroProbe::RedhatRelease),
        DistroProbe::RedhatRelease => Some(DistroProbe::CmdPacman),
        DistroProbe::CmdPacman => Some(DistroProbe::CmdApt),
        DistroProbe::CmdApt => Some(DistroProbe::CmdDnf),
        DistroProbe::CmdDnf => None,
    }
}

pub open spec fn probe_index(p: DistroProbe) -> int {
    match p {
        DistroProbe::ArchRelease => 0,
        DistroProbe::DebianVersion => 1,
        DistroProbe::FedoraRelease => 2,
        DistroProbe::RedhatRelease => 3,
        DistroProbe::CmdPacman => 4,
        DistroProbe::CmdApt => 5,
        DistroProbe::CmdDnf => 6,
    }
}

/// What to do next while detecting the distribution.
#[derive(Clone, Copy, Debug, PartialEq, Eq, Structural)]
pub enum DistroStep {
    /// Run this probe and report whether it succeeded.
    Probe(DistroProbe),
    /// Detection is over.
    Done(Option<Distro>),
}

/// The first probe.
pub fn first_distro_probe() -> (r: DistroStep)
    ensures
        r == DistroStep::Probe(DistroProbe::ArchRelease),
{
    DistroStep::Probe(DistroProbe::ArchRelease)
}

/// The step after probe `p` answered `found`: a success decides, a failure
/// moves to the next probe, and failing the last one finds nothing.
pub open spec fn distro_step_spec(p: DistroProbe, found: bool) -> DistroStep {
    if found {
        DistroStep::Done(Some(probe_distro(p)))
    } else {
        match probe_after(p) {
            Some(q) => DistroStep::Probe(q),
            None => DistroStep::Done(None),
        }
    }
}

pub fn distro_step(p: DistroProbe, found: bool) -> (r: DistroStep)
    ensures
        r == distro_step_spec(p, found),
{
    if found {
        let d = match p {
            DistroProbe::ArchRelease => Distro::Arch,
            DistroProbe::DebianVersion => Distro::Debian,
            DistroProbe::FedoraRelease => Distro::Fedora,
            DistroProbe::RedhatRelease => Distro::Fedora,
            DistroProbe::CmdPacman => Distro::Arch,
            DistroProbe::CmdApt => Distro::Debian,
            DistroProbe::CmdDnf => Distro::Fedora,
        };
        DistroStep::Done(Some(d))
    } else {
        match p {
            DistroProbe::ArchRelease => DistroStep::Probe(DistroProbe::DebianVersion),
            DistroProbe::DebianVersion => DistroStep::Probe(DistroProbe::FedoraRelease),
            DistroProbe::FedoraRelease => DistroStep::Probe(DistroProbe::RedhatRelease),
            DistroProbe::RedhatRelease => DistroStep::Probe(DistroProbe::CmdPacman),
            DistroProbe::CmdPacman => DistroStep::Probe(DistroProbe::CmdApt),
            DistroProbe::CmdApt => DistroStep::Probe(DistroProbe::CmdDnf),
            DistroProbe::CmdDnf => DistroStep::Done(None),
        }
    }
}

/// The distribution from the answers of all seven probes, in probe order:
/// the first probe that succeeds decides.
pub open spec fn distro_of(found: Seq<bool>) -> Option<Distro> {
    if found[0] {
        Some(Distro::Arch)
    } else if found[1] {
        Some(Distro::Debian)
    } else if found[2] || found[3] {
        Some(Distro::Fedora)
    } else if found[4] {
        Some(Distro::Arch)
    } else if found[5] {
        Some(Distro::Debian)
    } else if found[6] {
        Some(Distro::Fedora)
    } else {
        None
    }
}

pub fn detect_distro(found: &Vec<bool>) -> (r: Option<Distro>)
    requires
        found@.len() == 7,
    ensures
        r == distro_of(found@),
{
    if found[0] {
        Some(Distro::Arch)
    } else if found[1] {
        Some(Distro::Debian)
    } else if found[2] || found[3] {
        Some(Distro::Fedora)
    } else if found[4] {
        Some(Distro::Arch)
    } else if found[5] {
        Some(Distro::Debian)
    } else if found[6] {
        Some(Distro::Fedora)
    } else {
        None
    }
}

/// Running the probes one by one from `p` with the answers `found` ends
/// where the answers of the remaining probes lead.
pub open spec fn run_probes(p: DistroProbe, found: Seq<bool>) -> Option<Distro>
    decreases 7 - probe_index(p),
{
    match distro_step_spec(p, found[probe_index(p)]) {
        DistroStep::Done(d) => d,
        DistroStep::Probe(q) => if probe_index(q) > probe_index(p) {
            run_probes(q, found)
        } else {
            None
        },
    }
}

/// Driving the probes one at a time with `distro_step`, starting from
/// `first_distro_probe`, finds the same distribution as `detect_distro`
/// given all the answers at once.
pub proof fn law_probe_steps_agree(found: Seq<bool>)
    requires
        found.len() == 7,
    ensures
        run_probes(DistroProbe::ArchRelease, found) == distro_of(found),
{
    reveal_with_fuel(run_probes, 8);
}

// ── the commands ────────────────────────────────────────────────────────

/// A command whose output lists pending updates.
#[derive(Clone, Copy, Debug, PartialEq, Eq, Structural)]
pub enum PkgCommand {
    /// `checkupdates`
    Checkupdates,
    /// `pacman -Qu`
    PacmanQu,
    /// `yay -Qua`
    YayQua,
    /// `paru -Qua`
    ParuQua,
    /// `apt list --upgradable` (with `LANG=C`)
    AptUpgradable,
    /// `dnf check-update -q`
    DnfCheckUpdate,
    /// `flatpak remote-ls --updates`
    FlatpakUpdates,
}

/// On Arch: official updates from `checkupdates` when installed, else
/// `pacman -Qu`; AUR updates from `yay`, else `paru`, else none.
pub fn arch_commands(has_checkupdates: bool, has_yay: bool, has_paru: bool) -> (r: (PkgCommand, Option<PkgCommand>))
    ensures
        r.0 == (if has_checkupdates { PkgCommand::Checkupdates } else { PkgCommand::PacmanQu }),
        r.1 == (if has_yay { Some(PkgCommand::YayQua) } else if has_paru { Some(PkgCommand::ParuQua) } else { None }),
{
    let official = if has_checkupdates {
        PkgCommand::Checkupdates
    } else {
        PkgCommand::PacmanQu
    };
    let aur = if has_yay {
        Some(PkgCommand::YayQua)
    } else if has_paru {
        Some(PkgCommand::ParuQua)
    } else {
        None
    };
    (official, aur)
}

// ── counting the output ─────────────────────────────────────────────────

/// Lines that are not empty.
pub open spec fn count_nonempty(ls: Seq<Seq<char>>) -> nat
    decreases ls.len(),
{
    if ls.len() == 0 {
        0
    } else {
        count_nonempty(ls.drop_last()) + if ls.last().len() > 0 {
            1nat
        } else {
            0
        }
    }
}

/// Lines that mention `upgradable`.
pub open spec fn count_upgradable(ls: Seq<Seq<char>>) -> nat
    decreases ls.len(),
{
    if ls.len() == 0 {
        0
    } else {
        count_upgradable(ls.drop_last()) + if contains(ls.last(), "upgradable"@) {
            1nat
        } else {
            0
        }
    }
}

/// Lines that are not empty and not dnf's `Last metadata ...` notice.
pub open spec fn count_dnf(ls: Seq<Seq<char>>) -> nat
    decreases ls.len(),
{
    if ls.len() == 0 {
        0
    } else {
        count_dnf(ls.drop_last()) + if ls.last().len() > 0 && !starts_with(ls.last(), "Last metadata"@) {
            1nat
        } else {
            0
        }
    }
}

/// The count as `u32`, as `as u32` gives it.
pub open spec fn as_u32(n: nat) -> u32 {
    (n % 0x1_0000_0000) as u32
}

/// The number of non-empty lines of a command's output.
pub fn count_lines(output: &str) -> (r: u32)
    ensures
        r == as_u32(count_nonempty(lines(output@))),
{
    let ls = split_lines(&chars_of(output));
    let mut n: u64 = 0;
    for i in 0..ls.len()
        invariant
            n == count_nonempty(views(ls@).take(i as int)),
            n <= i,
    {
        proof {
            assert(views(ls@).take(i + 1).drop_last() =~= views(ls@).take(i as int));
        }
        if ls[i].len() > 0 {
            n = n + 1;
        }
    }
    proof {
        assert(views(ls@).take(ls@.len() as int) =~= views(ls@));
    }
    (n % 0x1_0000_0000) as u32
}

/// Debian: the lines of `apt list --upgradable` that say `upgradable`.
pub fn query_debian(output: &str) -> (r: u32)
    ensures
        r == as_u32(count_upgradable(lines(output@))),
{
    let ls = split_lines(&chars_of(output));
    let key = chars_of("upgradable");
    let mut n: u64 = 0;
    for i in 0..ls.len()
        invariant
            key@ == "upgradable"@,
            n == count_upgradable(views(ls@).take(i as int)),
            n <= i,
    {
        proof {
            assert(views(ls@).take(i + 1).drop_last() =~= views(ls@).take(i as int));
        }
        if has_substring(&ls[i], &key) {
            n = n + 1;
        }
    }
    proof {
        assert(views(ls@).take(ls@.len() as int) =~= views(ls@));
    }
    (n % 0x1_0000_0000) as u32
}

/// Fedora: the non-empty lines of `dnf check-update -q` other than the
/// metadata notice.
pub fn query_fedora(output: &str) -> (r: u32)
    ensures
        r == as_u32(count_dnf(lines(output@))),
{
    let ls = split_lines(&chars_of(output));
    let key = chars_of("Last metadata");
    let mut n: u64 = 0;
    for i in 0..ls.len()
        invariant
            key@ == "Last metadata"@,
            n == count_dnf(views(ls@).take(i as int)),
            n <= i,
    {
        proof {
            assert(views(ls@).take(i + 1).drop_last() =~= views(ls@).take(i as int));
        }
        if ls[i].len() > 0 && !has_prefix(&ls[i], &key) {
            n = n + 1;
        }
    }
    proof {
        assert(views(ls@).take(ls@.len() as int) =~= views(ls@));
    }
    (n % 0x1_0000_0000) as u32
}

/// Arch: the counts of the official and the AUR command's outputs (no AUR
/// helper: 0).
pub fn query_arch(official_output: &str, aur_output: Option<&str>) -> (r: (u32, u32))
    ensures
        r.0 == as_u32(count_nonempty(lines(official_output@))),
        r.1 == match aur_output {
            Some(o) => as_u32(count_nonempty(lines(o@))),
            None => 0,
        },
{
    let official = count_lines(official_output);
    let aur = match aur_output {
        Some(o) => count_lines(o),
        None => 0,
    };
    (official, aur)
}

/// Flatpak: the count of `flatpak remote-ls --updates`, or 0 without
/// flatpak.
pub fn query_flatpak(output: Option<&str>) -> (r: u32)
    ensures
        r == match output {
            Some(o) => as_u32(count_nonempty(lines(o@))),
            None => 0,
        },
{
    match output {
        Some(o) => count_lines(o),
        None => 0,
    }
}

/// The state from the distribution's counts `(official, aur)` and the
/// Flatpak count: without a known distribution only Flatpak counts, and
/// only Arch has an AUR count.
pub fn query_updates(distro: Option<Distro>, counts: (u32, u32), flatpak: u32) -> (r: UpdateState)
    ensures
        r.flatpak == flatpak,
        distro == Some(Distro::Arch) ==> r.official == counts.0 && r.aur == counts.1,
        (distro == Some(Distro::Debian) || distro == Some(Distro::Fedora)) ==> r.official == counts.0
            && r.aur == 0,
        distro is None ==> r.official == 0 && r.aur == 0,
{
    let (official, aur) = match distro {
        Some(Distro::Arch) => counts,
        Some(Distro::Debian) => (counts.0, 0),
        Some(Distro::Fedora) => (counts.0, 0),
        None => (0, 0),
    };
    UpdateState { official, aur, flatpak }
}

// ── what the widget shows ───────────────────────────────────────────────

/// The bar icon and whether it is highlighted: the up-to-date icon, dim,
/// when nothing is pending; the updates icon, green, otherwise.
pub fn pkg_icon(total: u32) -> (r: (&'static str, bool))
    ensures
        total == 0 ==> r == ("pkg-uptodate.svg", false),
        total > 0 ==> r == ("pkg-updates.svg", true),
{
    if total == 0 {
        ("pkg-uptodate.svg", false)
    } else {
        ("pkg-updates.svg", true)
    }
}

/// What the panel widget writes for a count.
#[derive(Clone, Debug, PartialEq, Eq)]
pub struct PkgRefresh {
    /// The pending icon (else the up-to-date one).
    pub pending: bool,
    /// The label, shown only when some update is pending.
    pub label: Option<String>,
    pub class: &'static str,
}

/// The panel's update: nothing once initialised with the same count;
/// otherwise the icon, label and class for the count.
pub fn pkg_refresh(initialized: bool, shown: u32, count: u32) -> (r: Option<PkgRefresh>)
    ensures
        initialized && count == shown ==> r is None,
        !(initialized && count == shown) ==> r is Some && (if count == 0 {
            !r->0.pending && r->0.label is None && r->0.class == "pkg-update-ok"
        } else {
            r->0.pending && r->0.label is Some && r->0.label->0@ == dec(count as nat) && r->0.class
                == "pkg-update-pending"
        }),
{
    if initialized && count == shown {
        return None;
    }
    if count == 0 {
        Some(PkgRefresh { pending: false, label: None, class: "pkg-update-ok" })
    } else {
        let mut s = String::new();
        push_dec(&mut s, count as u64);
        Some(PkgRefresh { pending: true, label: Some(s), class: "pkg-update-pending" })
    }
}

} // verus!
