//! System tray: the pixmap conversion, which icon an item shows and where
//! it is looked up, the labels of its menu, and how a new list of items is
//! reconciled with the icons already on the bar.

use vstd::prelude::*;

use crate::text::{chars_of, owned, push_char, starts_with, str_eq, string_of};

verus! {

// ── pixmaps ─────────────────────────────────────────────────────────────

/// ARGB32 pixels (bytes `A R G B`) as RGBA (`R G B A`); an incomplete
/// trailing pixel is dropped.
pub open spec fn argb_to_rgba_spec(px: Seq<u8>) -> Seq<u8> {
    Seq::new(
        (px.len() / 4 * 4) as nat,
        |i: int| {
            let base = i / 4 * 4;
            let k = i % 4;
            if k == 3 {
                px[base]
            } else {
                px[base + k + 1]
            }
        },
    )
}

pub fn argb_to_rgba(pixels: &[u8]) -> (r: Vec<u8>)
    ensures
        r@ == argb_to_rgba_spec(pixels@),
{
    let mut out: Vec<u8> = Vec::new();
    let len = pixels.len();
    let n = len / 4;
    let mut p: usize = 0;
    while p < n
        invariant
            len == pixels@.len(),
            n == len / 4,
            p <= n,
            out@.len() == p * 4,
            forall|i: int| 0 <= i < out@.len() ==> #[trigger] out@[i] == argb_to_rgba_spec(pixels@)[i],
        decreases n - p,
    {
        assert(p * 4 + 4 <= len);
        let b = p * 4;
        out.push(pixels[b + 1]);
        out.push(pixels[b + 2]);
        out.push(pixels[b + 3]);
        out.push(pixels[b]);
        proof {
            assert forall|i: int| 0 <= i < out@.len() implies #[trigger] out@[i] == argb_to_rgba_spec(pixels@)[i] by {
                if i >= b {
                    assert(i / 4 * 4 == b);
                }
            }
        }
        p = p + 1;
    }
    assert(out@ =~= argb_to_rgba_spec(pixels@));
    out
}

/// The index of the widest pixmap, the last one among equally wide ones
/// (as `Iterator::max_by_key` picks).
pub open spec fn is_widest(widths: Seq<i32>, i: int) -> bool {
    &&& 0 <= i < widths.len()
    &&& forall|j: int| 0 <= j < widths.len() ==> #[trigger] widths[j] <= widths[i]
    &&& forall|j: int| i < j < widths.len() ==> #[trigger] widths[j] < widths[i]
}

pub fn widest_pixmap(widths: &Vec<i32>) -> (r: Option<usize>)
    ensures
        match r {
            Some(i) => is_widest(widths@, i as int),
            None => widths@.len() == 0,
        },
{
    if widths.len() == 0 {
        return None;
    }
    let mut best: usize = 0;
    for i in 1..widths.len()
        invariant
            widths@.len() > 0,
            best < i <= widths@.len(),
            forall|j: int| 0 <= j < i ==> #[trigger] widths@[j] <= widths@[best as int],
            forall|j: int| best < j < i ==> #[trigger] widths@[j] < widths@[best as int],
    {
        if widths[i] >= widths[best] {
            best = i;
        }
    }
    Some(best)
}

/// The bar draws a pixmap whose width and height, taken as `u32` (a
/// negative value wraps), are both non-zero.
pub fn pixmap_size(width: i32, height: i32) -> (r: Option<(u32, u32)>)
    ensures
        match r {
            Some((w, h)) => w == width as u32 && h == height as u32 && w != 0 && h != 0,
            None => width as u32 == 0 || height as u32 == 0,
        },
{
    let w = width as u32;
    let h = height as u32;
    if w == 0 || h == 0 {
        None
    } else {
        Some((w, h))
    }
}

/// One pixmap of a tray item, as the item publishes it: ARGB32 pixels.
#[derive(Clone, Debug, PartialEq, Eq)]
pub struct TrayPixmap {
    pub width: i32,
    pub height: i32,
    pub pixels: Vec<u8>,
}

pub open spec fn pixmap_widths(ps: Seq<TrayPixmap>) -> Seq<i32> {
    ps.map_values(|p: TrayPixmap| p.width)
}

#[verifier::external_type_specification]
#[verifier::external_body]
pub struct ExPngEncodingError(png::EncodingError);

/// The PNG file that the png crate writes for an 8-bit RGBA image of this
/// size and these pixels, with the encoder's other settings left at their
/// defaults; `None` where it returns an error.
pub uninterp spec fn png_rgba8(width: u32, height: u32, rgba: Seq<u8>) -> Option<Seq<u8>>;

/// Calls `png::Encoder::new` over an in-memory buffer, sets the colour type
/// to RGBA and the bit depth to eight, then calls `write_header`,
/// `Writer::write_image_data` and `Writer::finish`; gives the bytes
/// written. The result is named. The sides are non-zero and the pixels
/// fill them exactly, so that the encoder's size arithmetic stays in range.
#[verifier::external_body]
fn encode_png_rgba8(width: u32, height: u32, rgba: &[u8]) -> (r: Result<Vec<u8>, png::EncodingError>)
    requires
        width > 0,
        height > 0,
        rgba@.len() == width * height * 4,
    ensures
        match r {
            Ok(b) => png_rgba8(width, height, rgba@) == Some(b@),
            Err(_) => png_rgba8(width, height, rgba@) is None,
        },
{
    let mut out: Vec<u8> = Vec::new();
    let mut encoder = png::Encoder::new(&mut out, width, height);
    encoder.set_color(png::ColorType::Rgba);
    encoder.set_depth(png::BitDepth::Eight);
    let mut writer = encoder.write_header()?;
    writer.write_image_data(rgba)?;
    writer.finish()?;
    Ok(out)
}

/// The PNG saved for one pixmap: its sides, taken as `u32`, are non-zero
/// and its pixels, turned to RGBA, fill them exactly; otherwise the
/// encoder refuses it.
pub open spec fn pixmap_png_of(p: TrayPixmap) -> Option<Seq<u8>> {
    let w = p.width as u32;
    let h = p.height as u32;
    let rgba = argb_to_rgba_spec(p.pixels@);
    if w == 0 || h == 0 || rgba.len() != w * h * 4 {
        None
    } else {
        png_rgba8(w, h, rgba)
    }
}

pub open spec fn bytes_view(o: Option<Vec<u8>>) -> Option<Seq<u8>> {
    match o {
        Some(b) => Some(b@),
        None => None,
    }
}

proof fn lemma_widest_unique(ws: Seq<i32>, i: int, j: int)
    requires
        is_widest(ws, i),
        is_widest(ws, j),
    ensures
        i == j,
{
    if i < j {
        assert(ws[j] < ws[i]);
        assert(ws[i] <= ws[j]);
    } else if j < i {
        assert(ws[i] < ws[j]);
        assert(ws[j] <= ws[i]);
    }
}

/// The PNG the tray saves for an item's icon: that of its widest pixmap
/// (the last among equally wide ones); `None` without a pixmap or when the
/// widest cannot be encoded.
pub fn pixmap_png(pixmaps: &Vec<TrayPixmap>) -> (r: Option<Vec<u8>>)
    ensures
        pixmaps@.len() == 0 ==> r is None,
        forall|i: int| #[trigger] is_widest(pixmap_widths(pixmaps@), i) ==> bytes_view(r) == pixmap_png_of(pixmaps@[i]),
{
    let mut widths: Vec<i32> = Vec::new();
    for k in 0..pixmaps.len()
        invariant
            widths@ == pixmap_widths(pixmaps@).take(k as int),
    {
        widths.push(pixmaps[k].width);
        assert(widths@ =~= pixmap_widths(pixmaps@).take(k + 1));
    }
    assert(widths@ =~= pixmap_widths(pixmaps@));
    let i = match widest_pixmap(&widths) {
        Some(i) => i,
        None => return None,
    };
    proof {
        assert forall|j: int| #[trigger] is_widest(pixmap_widths(pixmaps@), j) implies j == i by {
            lemma_widest_unique(pixmap_widths(pixmaps@), i as int, j);
        }
    }
    let p = &pixmaps[i];
    let (w, h) = match pixmap_size(p.width, p.height) {
        Some(s) => s,
        None => return None,
    };
    let rgba = argb_to_rgba(p.pixels.as_slice());
    assert((w as u128) * (h as u128) <= 0xffff_ffff_ffff_ffff) by (nonlinear_arith)
        requires
            w <= 0xffff_ffffu32,
            h <= 0xffff_ffffu32,
    ;
    let wh: u128 = (w as u128) * (h as u128);
    if rgba.len() as u128 != wh * 4 {
        return None;
    }
    match encode_png_rgba8(w, h, rgba.as_slice()) {
        Ok(b) => Some(b),
        Err(_) => None,
    }
}

/// The panel uses a decoded RGBA pixmap when both sides are positive and
/// it holds exactly four bytes per pixel.
pub fn pixmap_usable(width: i32, height: i32, len: usize) -> (r: bool)
    ensures
        r == (width > 0 && height > 0 && len == width * height * 4),
{
    if width <= 0 || height <= 0 {
        return false;
    }
    let w = width as u64;
    let h = height as u64;
    proof {
        assert(w * h <= 0x7fff_ffff * 0x7fff_ffff) by (nonlinear_arith)
            requires
                w <= 0x7fff_ffff,
                h <= 0x7fff_ffff,
        ;
    }
    len as u128 == (w * h) as u128 * 4
}

// ── items ───────────────────────────────────────────────────────────────

/// The code of the ASCII-lowercase of a character.
pub open spec fn ascii_lower(c: char) -> int {
    if 'A' <= c <= 'Z' {
        (c as int) + 32
    } else {
        c as int
    }
}

/// `str::eq_ignore_ascii_case`.
pub open spec fn eq_ignore_ascii_case(a: Seq<char>, b: Seq<char>) -> bool {
    a.len() == b.len() && forall|i: int| 0 <= i < a.len() ==> ascii_lower(#[trigger] a[i]) == ascii_lower(b[i])
}

fn lower(c: char) -> (r: u32)
    ensures
        r == ascii_lower(c),
{
    if 'A' <= c && c <= 'Z' {
        (c as u32) + 32
    } else {
        c as u32
    }
}

/// The Fcitx item has its own widget and is left out of the tray.
pub fn is_fcitx(id: &str) -> (r: bool)
    ensures
        r == eq_ignore_ascii_case(id@, "fcitx"@),
{
    let a = chars_of(id);
    let b = chars_of("fcitx");
    proof {
        reveal_strlit("fcitx");
    }
    if a.len() != b.len() {
        return false;
    }
    for i in 0..a.len()
        invariant
            a@ == id@,
            b@ == "fcitx"@,
            a@.len() == b@.len(),
            forall|j: int| 0 <= j < i ==> ascii_lower(#[trigger] a@[j]) == ascii_lower(b@[j]),
    {
        if lower(a[i]) != lower(b[i]) {
            return false;
        }
    }
    true
}

/// The tooltip: the title, or the id without one.
pub fn tooltip_text(id: &str, title: Option<&str>) -> (r: String)
    ensures
        r@ == match title {
            Some(t) => t@,
            None => id@,
        },
{
    match title {
        Some(t) => owned(t),
        None => owned(id),
    }
}

/// The arrow of the tray capsule: pointing right when expanded.
pub fn tray_arrow(expanded: bool) -> (r: &'static str)
    ensures
        expanded ==> r == "tray-arrow.svg",
        !expanded ==> r == "tray-arrow-left.svg",
{
    if expanded {
        "tray-arrow.svg"
    } else {
        "tray-arrow-left.svg"
    }
}

// ── where an icon is looked up ──────────────────────────────────────────

/// A place an item's icon may come from, tried in order until one is
/// found.
#[derive(Clone, Debug, PartialEq, Eq)]
pub enum IconCandidate {
    /// This file, if it exists.
    File(String),
    /// The icon theme's lookup of this name.
    Theme(String),
}

pub open spec fn candidate_view(c: IconCandidate) -> (bool, Seq<char>) {
    match c {
        IconCandidate::File(p) => (true, p@),
        IconCandidate::Theme(n) => (false, n@),
    }
}

pub open spec fn theme_dirs() -> Seq<Seq<char>> {
    seq!["scalable"@, "48x48"@, "32x32"@, "24x24"@, "22x22"@, "16x16"@]
}

/// The files of one extension and category under a theme path: the
/// scalable directory, then the sizes from 48x48 down.
pub open spec fn theme_files_for(theme: Seq<char>, name: Seq<char>, ext: Seq<char>, cat: Seq<char>) -> Seq<Seq<char>> {
    theme_dirs().map_values(|d: Seq<char>| theme + "/hicolor/"@ + d + "/"@ + cat + "/"@ + name + "."@ + ext)
}

/// The files under an application's own theme path: for `svg` then
/// `png`, for `apps` then `status`.
pub open spec fn theme_path_files(theme: Seq<char>, name: Seq<char>) -> Seq<Seq<char>> {
    theme_files_for(theme, name, "svg"@, "apps"@) + theme_files_for(theme, name, "svg"@, "status"@)
        + theme_files_for(theme, name, "png"@, "apps"@) + theme_files_for(theme, name, "png"@, "status"@)
}

/// All the places tried for an item, in order: the saved pixmap; for a
/// non-empty icon name, the name itself when it is an absolute path, the
/// files under the item's theme path (when it has a non-empty one), the
/// icon theme, the hicolor scalable `apps` and `status` SVGs, and the
/// pixmaps directory's PNG and SVG.
pub open spec fn icon_candidates_spec(pixmap: Option<Seq<char>>, name: Option<Seq<char>>, theme: Option<Seq<char>>) -> Seq<(bool, Seq<char>)> {
    let c0 = match pixmap {
        Some(p) => seq![(true, p)],
        None => Seq::<(bool, Seq<char>)>::empty(),
    };
    match name {
        Some(n) => if n.len() == 0 {
            c0
        } else {
            let c1 = if n[0] == '/' { c0.push((true, n)) } else { c0 };
            let c2 = match theme {
                Some(t) => if t.len() > 0 {
                    c1 + theme_path_files(t, n).map_values(|f: Seq<char>| (true, f))
                } else {
                    c1
                },
                None => c1,
            };
            c2 + seq![
                (false, n),
                (true, "/usr/share/icons/hicolor/scalable/apps/"@ + n + ".svg"@),
                (true, "/usr/share/icons/hicolor/scalable/status/"@ + n + ".svg"@),
                (true, "/usr/share/pixmaps/"@ + n + ".png"@),
                (true, "/usr/share/pixmaps/"@ + n + ".svg"@),
            ]
        },
        None => c0,
    }
}

fn file_candidate(a: &str, b: &str, c: &str) -> (r: IconCandidate)
    ensures
        candidate_view(r) == (true, a@ + b@ + c@),
{
    let mut s = owned(a);
    s.append(b);
    s.append(c);
    IconCandidate::File(s)
}

fn theme_file(theme: &str, dir: &str, cat: &str, name: &str, ext: &str) -> (r: IconCandidate)
    ensures
        candidate_view(r) == (true, theme@ + "/hicolor/"@ + dir@ + "/"@ + cat@ + "/"@ + name@ + "."@ + ext@),
{
    let mut s = owned(theme);
    s.append("/hicolor/");
    s.append(dir);
    s.append("/");
    s.append(cat);
    s.append("/");
    s.append(name);
    s.append(".");
    s.append(ext);
    IconCandidate::File(s)
}

fn push_theme_files(r: &mut Vec<IconCandidate>, theme: &str, name: &str, ext: &str, cat: &str)
    ensures
        final(r)@.map_values(|x: IconCandidate| candidate_view(x)) == old(r)@.map_values(
            |x: IconCandidate| candidate_view(x),
        ) + theme_files_for(theme@, name@, ext@, cat@).map_values(|f: Seq<char>| (true, f)),
{
    let dirs = vec!["scalable", "48x48", "32x32", "24x24", "22x22", "16x16"];
    proof {
        reveal_strlit("scalable");
        reveal_strlit("48x48");
        reveal_strlit("32x32");
        reveal_strlit("24x24");
        reveal_strlit("22x22");
        reveal_strlit("16x16");
        assert(dirs@.map_values(|s: &str| s@) =~= theme_dirs());
    }
    let ghost start = r@.map_values(|x: IconCandidate| candidate_view(x));
    let ghost files = theme_files_for(theme@, name@, ext@, cat@).map_values(|f: Seq<char>| (true, f));
    for i in 0..dirs.len()
        invariant
            dirs@.len() == 6,
            dirs@.map_values(|s: &str| s@) == theme_dirs(),
            files == theme_files_for(theme@, name@, ext@, cat@).map_values(|f: Seq<char>| (true, f)),
            files.len() == 6,
            r@.map_values(|x: IconCandidate| candidate_view(x)) == start + files.take(i as int),
    {
        let ghost before = r@.map_values(|x: IconCandidate| candidate_view(x));
        let cand = theme_file(theme, dirs[i], cat, name, ext);
        r.push(cand);
        proof {
            assert(dirs@.map_values(|s: &str| s@)[i as int] == dirs@[i as int]@);
            assert(files[i as int] == candidate_view(cand));
            assert(files.take(i + 1) =~= files.take(i as int).push(files[i as int]));
            assert(r@.map_values(|x: IconCandidate| candidate_view(x)) =~= before.push(candidate_view(cand)));
            assert(start + files.take(i as int).push(files[i as int]) =~= (start + files.take(i as int)).push(files[i as int]));
        }
    }
    proof {
        assert(files.take(6) =~= files);
    }
}

pub fn icon_candidates(pixmap: Option<&str>, name: Option<&str>, theme: Option<&str>) -> (r: Vec<IconCandidate>)
    ensures
        r@.map_values(|x: IconCandidate| candidate_view(x)) == icon_candidates_spec(
            match pixmap {
                Some(p) => Some(p@),
                None => None,
            },
            match name {
                Some(n) => Some(n@),
                None => None,
            },
            match theme {
                Some(t) => Some(t@),
                None => None,
            },
        ),
{
    let ghost pv = match pixmap {
        Some(p) => Some(p@),
        None => None,
    };
    let ghost nv = match name {
        Some(n) => Some(n@),
        None => None,
    };
    let ghost tv = match theme {
        Some(t) => Some(t@),
        None => None,
    };
    let mut r: Vec<IconCandidate> = Vec::new();
    match pixmap {
        Some(p) => r.push(IconCandidate::File(owned(p))),
        None => {},
    }
    let ghost c0 = match pv {
        Some(p) => seq![(true, p)],
        None => Seq::<(bool, Seq<char>)>::empty(),
    };
    assert(r@.map_values(|x: IconCandidate| candidate_view(x)) =~= c0);
    match name {
        Some(n) => {
            let nc = chars_of(n);
            if nc.len() > 0 {
                let ghost c1 = if n@[0] == '/' { c0.push((true, n@)) } else { c0 };
                if nc[0] == '/' {
                    let ghost before = r@.map_values(|x: IconCandidate| candidate_view(x));
                    r.push(IconCandidate::File(owned(n)));
                    assert(r@.map_values(|x: IconCandidate| candidate_view(x)) =~= before.push((true, n@)));
                }
                assert(r@.map_values(|x: IconCandidate| candidate_view(x)) == c1);
                let ghost c2 = match tv {
                    Some(t) => if t.len() > 0 {
                        c1 + theme_path_files(t, n@).map_values(|f: Seq<char>| (true, f))
                    } else {
                        c1
                    },
                    None => c1,
                };
                match theme {
                    Some(t) => {
                        if chars_of(t).len() > 0 {
                            push_theme_files(&mut r, t, n, "svg", "apps");
                            push_theme_files(&mut r, t, n, "svg", "status");
                            push_theme_files(&mut r, t, n, "png", "apps");
                            push_theme_files(&mut r, t, n, "png", "status");
                            proof {
                                let f = |x: Seq<char>| (true, x);
                                let a1 = theme_files_for(t@, n@, "svg"@, "apps"@);
                                let a2 = theme_files_for(t@, n@, "svg"@, "status"@);
                                let a3 = theme_files_for(t@, n@, "png"@, "apps"@);
                                let a4 = theme_files_for(t@, n@, "png"@, "status"@);
                                assert((a1 + a2 + a3 + a4).map_values(f) =~= a1.map_values(f) + a2.map_values(f)
                                    + a3.map_values(f) + a4.map_values(f));
                                assert(r@.map_values(|x: IconCandidate| candidate_view(x)) =~= c2);
                            }
                        }
                    },
                    None => {},
                }
                assert(r@.map_values(|x: IconCandidate| candidate_view(x)) == c2);
                let ghost before = r@.map_values(|x: IconCandidate| candidate_view(x));
                let e0 = IconCandidate::Theme(owned(n));
                let e1 = file_candidate("/usr/share/icons/hicolor/scalable/apps/", n, ".svg");
                let e2 = file_candidate("/usr/share/icons/hicolor/scalable/status/", n, ".svg");
                let e3 = file_candidate("/usr/share/pixmaps/", n, ".png");
                let e4 = file_candidate("/usr/share/pixmaps/", n, ".svg");
                let ghost tail = seq![candidate_view(e0), candidate_view(e1), candidate_view(e2), candidate_view(e3), candidate_view(e4)];
                r.push(e0);
                r.push(e1);
                r.push(e2);
                r.push(e3);
                r.push(e4);
                assert(r@.map_values(|x: IconCandidate| candidate_view(x)) =~= before + tail);
            } else {
                assert(n@.len() == 0);
            }
        },
        None => {},
    }
    r
}

// ── menus ───────────────────────────────────────────────────────────────

/// `__` becomes `_`, any other `_` (a mnemonic marker) is dropped, and a
/// `\u{1}` character also becomes `_` (it stands in for `__` while the
/// label is rewritten).
pub open spec fn clean_label_spec(s: Seq<char>) -> Seq<char>
    decreases s.len(),
{
    if s.len() == 0 {
        Seq::<char>::empty()
    } else if s.len() >= 2 && s[0] == '_' && s[1] == '_' {
        seq!['_'] + clean_label_spec(s.subrange(2, s.len() as int))
    } else if s[0] == '_' {
        clean_label_spec(s.drop_first())
    } else if s[0] == '\u{1}' {
        seq!['_'] + clean_label_spec(s.drop_first())
    } else {
        seq![s[0]] + clean_label_spec(s.drop_first())
    }
}

/// A menu label as shown: the dbusmenu mnemonic markers removed.
pub fn clean_label(label: &str) -> (r: String)
    ensures
        r@ == clean_label_spec(label@),
{
    let cs = chars_of(label);
    let mut out = String::new();
    let mut i: usize = 0;
    assert(cs@.subrange(0, cs@.len() as int) =~= cs@);
    while i < cs.len()
        invariant
            i <= cs@.len(),
            cs@ == label@,
            clean_label_spec(label@) == out@ + clean_label_spec(cs@.subrange(i as int, cs@.len() as int)),
        decreases cs@.len() - i,
    {
        let ghost rest = cs@.subrange(i as int, cs@.len() as int);
        let ghost before = out@;
        if i + 1 < cs.len() && cs[i] == '_' && cs[i + 1] == '_' {
            push_char(&mut out, '_');
            proof {
                assert(rest.subrange(2, rest.len() as int) =~= cs@.subrange(i + 2, cs@.len() as int));
                assert(before + (seq!['_'] + clean_label_spec(rest.subrange(2, rest.len() as int))) =~= out@ + clean_label_spec(cs@.subrange(i + 2, cs@.len() as int)));
            }
            i = i + 2;
        } else {
            let c = cs[i];
            if c == '_' {
            } else if c == '\u{1}' {
                push_char(&mut out, '_');
            } else {
                push_char(&mut out, c);
            }
            proof {
                assert(rest.drop_first() =~= cs@.subrange(i + 1, cs@.len() as int));
                if c != '_' {
                    assert(before + (seq![out@.last()] + clean_label_spec(rest.drop_first())) =~= out@ + clean_label_spec(rest.drop_first()));
                }
            }
            i = i + 1;
        }
    }
    assert(cs@.subrange(i as int, cs@.len() as int) =~= Seq::<char>::empty());
    assert(out@ + Seq::<char>::empty() =~= out@);
    out
}

/// An entry of a tray item's menu.
pub enum TrayMenuEntry {
    Item { id: i32, label: String, enabled: bool },
    Submenu { label: String, children: Vec<TrayMenuEntry> },
    Separator,
}

/// The sections of one menu level (positions of its entries), closed by
/// separators; empty sections are dropped.
pub open spec fn sections_upto(es: Seq<TrayMenuEntry>, n: int) -> (Seq<Seq<usize>>, Seq<usize>)
    decreases n,
{
    if n <= 0 {
        (Seq::<Seq<usize>>::empty(), Seq::<usize>::empty())
    } else {
        let (done, cur) = sections_upto(es, n - 1);
        if es[n - 1] is Separator {
            if cur.len() > 0 {
                (done.push(cur), Seq::<usize>::empty())
            } else {
                (done, cur)
            }
        } else {
            (done, cur.push((n - 1) as usize))
        }
    }
}

pub open spec fn menu_sections_spec(es: Seq<TrayMenuEntry>) -> Seq<Seq<usize>> {
    let (done, cur) = sections_upto(es, es.len() as int);
    if cur.len() > 0 {
        done.push(cur)
    } else {
        done
    }
}

pub fn menu_sections(entries: &Vec<TrayMenuEntry>) -> (r: Vec<Vec<usize>>)
    ensures
        r@.map_values(|v: Vec<usize>| v@) == menu_sections_spec(entries@),
{
    let mut done: Vec<Vec<usize>> = Vec::new();
    let mut cur: Vec<usize> = Vec::new();
    for i in 0..entries.len()
        invariant
            done@.map_values(|v: Vec<usize>| v@) == sections_upto(entries@, i as int).0,
            cur@ == sections_upto(entries@, i as int).1,
    {
        let ghost d0 = done@.map_values(|v: Vec<usize>| v@);
        match &entries[i] {
            TrayMenuEntry::Separator => {
                if cur.len() > 0 {
                    let c = cur;
                    let ghost cv = c@;
                    done.push(c);
                    cur = Vec::new();
                    assert(done@.map_values(|v: Vec<usize>| v@) =~= d0.push(cv));
                }
            },
            _ => {
                cur.push(i);
            },
        }
    }
    if cur.len() > 0 {
        let ghost d0 = done@.map_values(|v: Vec<usize>| v@);
        let ghost cv = cur@;
        done.push(cur);
        assert(done@.map_values(|v: Vec<usize>| v@) =~= d0.push(cv));
    }
    done
}

/// One step of the walk over a menu tree that the menu's signature is
/// taken from: items and submenus in order, a submenu's children right
/// after it, and separators.
#[derive(Clone, Debug, PartialEq, Eq)]
pub enum MenuToken {
    Item { id: i32, label: String, enabled: bool },
    Submenu { label: String },
    Separator,
}

pub open spec fn token_view(t: MenuToken) -> (int, int, Seq<char>, bool) {
    match t {
        MenuToken::Item { id, label, enabled } => (0, id as int, label@, enabled),
        MenuToken::Submenu { label } => (1, 0, label@, false),
        MenuToken::Separator => (2, 0, Seq::<char>::empty(), false),
    }
}

pub open spec fn tokens_view(ts: Seq<MenuToken>) -> Seq<(int, int, Seq<char>, bool)> {
    ts.map_values(|t: MenuToken| token_view(t))
}

/// The walk of a menu: each entry's token, a submenu followed by the walk
/// of its children.
pub open spec fn menu_walk(es: Seq<TrayMenuEntry>) -> Seq<(int, int, Seq<char>, bool)>
    decreases es,
{
    if es.len() == 0 {
        Seq::empty()
    } else {
        let head = match es[0] {
            TrayMenuEntry::Item { id, label, enabled } => seq![(0, id as int, label@, enabled)],
            TrayMenuEntry::Submenu { label, children } => seq![(1, 0, label@, false)] + menu_walk(children@),
            TrayMenuEntry::Separator => seq![(2, 0, Seq::<char>::empty(), false)],
        };
        head + menu_walk(es.drop_first())
    }
}

proof fn lemma_walk_split(es: Seq<TrayMenuEntry>, i: int)
    requires
        0 <= i < es.len(),
    ensures
        menu_walk(es.subrange(i, es.len() as int)) == (match es[i] {
            TrayMenuEntry::Item { id, label, enabled } => seq![(0, id as int, label@, enabled)],
            TrayMenuEntry::Submenu { label, children } => seq![(1, 0, label@, false)] + menu_walk(children@),
            TrayMenuEntry::Separator => seq![(2, 0, Seq::<char>::empty(), false)],
        }) + menu_walk(es.subrange(i + 1, es.len() as int)),
{
    let t = es.subrange(i, es.len() as int);
    assert(t[0] == es[i]);
    assert(t.drop_first() =~= es.subrange(i + 1, es.len() as int));
}

fn push_menu_tokens(es: &Vec<TrayMenuEntry>, out: &mut Vec<MenuToken>)
    ensures
        tokens_view(final(out)@) == tokens_view(old(out)@) + menu_walk(es@),
    decreases es@,
{
    let ghost start = tokens_view(out@);
    assert(es@.subrange(0, es@.len() as int) =~= es@);
    let mut i: usize = 0;
    while i < es.len()
        invariant
            i <= es@.len(),
            tokens_view(out@) + menu_walk(es@.subrange(i as int, es@.len() as int)) == start + menu_walk(es@),
        decreases es@.len() - i,
    {
        proof {
            lemma_walk_split(es@, i as int);
        }
        let ghost before = tokens_view(out@);
        match &es[i] {
            TrayMenuEntry::Item { id, label, enabled } => {
                out.push(MenuToken::Item { id: *id, label: label.clone(), enabled: *enabled });
                proof {
                    assert(tokens_view(out@) =~= before.push((0, *id as int, label@, *enabled)));
                }
            },
            TrayMenuEntry::Submenu { label, children } => {
                out.push(MenuToken::Submenu { label: label.clone() });
                proof {
                    assert(tokens_view(out@) =~= before.push((1, 0, label@, false)));
                }
                push_menu_tokens(children, out);
            },
            TrayMenuEntry::Separator => {
                out.push(MenuToken::Separator);
                proof {
                    assert(tokens_view(out@) =~= before.push((2, 0, Seq::<char>::empty(), false)));
                }
            },
        }
        proof {
            assert(before + (match es@[i as int] {
                TrayMenuEntry::Item { id, label, enabled } => seq![(0, id as int, label@, enabled)],
                TrayMenuEntry::Submenu { label, children } => seq![(1, 0, label@, false)] + menu_walk(children@),
                TrayMenuEntry::Separator => seq![(2, 0, Seq::<char>::empty(), false)],
            }) =~= tokens_view(out@));
            assert(tokens_view(out@) + menu_walk(es@.subrange(i + 1, es@.len() as int)) =~= before + (
            (match es@[i as int] {
                TrayMenuEntry::Item { id, label, enabled } => seq![(0, id as int, label@, enabled)],
                TrayMenuEntry::Submenu { label, children } => seq![(1, 0, label@, false)] + menu_walk(children@),
                TrayMenuEntry::Separator => seq![(2, 0, Seq::<char>::empty(), false)],
            }) + menu_walk(es@.subrange(i + 1, es@.len() as int))));
        }
        i = i + 1;
    }
    assert(es@.subrange(i as int, es@.len() as int) =~= Seq::<TrayMenuEntry>::empty());
    assert(tokens_view(out@) + Seq::empty() =~= tokens_view(out@));
}

/// The menu's signature: its walk. The popover is rebuilt when the walk
/// changes.
pub fn menu_signature(entries: &Vec<TrayMenuEntry>) -> (r: Vec<MenuToken>)
    ensures
        tokens_view(r@) == menu_walk(entries@),
{
    let mut out: Vec<MenuToken> = Vec::new();
    push_menu_tokens(entries, &mut out);
    assert(tokens_view(Seq::<MenuToken>::empty()) + menu_walk(entries@) =~= menu_walk(entries@));
    out
}

fn token_eq(a: &MenuToken, b: &MenuToken) -> (r: bool)
    ensures
        r == (token_view(*a) == token_view(*b)),
{
    match (a, b) {
        (MenuToken::Item { id: i1, label: l1, enabled: e1 }, MenuToken::Item { id: i2, label: l2, enabled: e2 }) => {
            *i1 == *i2 && *e1 == *e2 && str_eq(l1.as_str(), l2.as_str())
        },
        (MenuToken::Submenu { label: l1 }, MenuToken::Submenu { label: l2 }) => str_eq(l1.as_str(), l2.as_str()),
        (MenuToken::Separator, MenuToken::Separator) => true,
        _ => false,
    }
}

/// Whether two signatures are the same walk.
pub fn same_signature(a: &Vec<MenuToken>, b: &Vec<MenuToken>) -> (r: bool)
    ensures
        r == (tokens_view(a@) == tokens_view(b@)),
{
    if a.len() != b.len() {
        assert(tokens_view(a@).len() != tokens_view(b@).len());
        return false;
    }
    for i in 0..a.len()
        invariant
            a@.len() == b@.len(),
            forall|j: int| 0 <= j < i ==> token_view(#[trigger] a@[j]) == token_view(b@[j]),
    {
        if !token_eq(&a[i], &b[i]) {
            assert(tokens_view(a@)[i as int] != tokens_view(b@)[i as int]);
            return false;
        }
    }
    assert(tokens_view(a@) =~= tokens_view(b@));
    true
}

// ── reconciling the bar's icons with a new item list ────────────────────

/// A tray item's pixmap, decoded to RGBA.
#[derive(Clone, Debug, PartialEq, Eq)]
pub struct TrayIcon {
    pub width: i32,
    pub height: i32,
    pub rgba: Vec<u8>,
}

/// A tray item as the panel receives it.
pub struct TrayItem {
    pub id: String,
    pub title: Option<String>,
    pub tooltip: Option<String>,
    pub icon: Option<TrayIcon>,
    pub icon_name: Option<String>,
    pub icon_theme_path: Option<String>,
    pub menu: Vec<TrayMenuEntry>,
}

/// How the panel shows an item's image.
#[derive(Clone, Copy, Debug, PartialEq, Eq, Structural)]
pub enum ImagePlan {
    /// The decoded pixmap.
    Pixmap,
    /// The icon name: first as a file when it is an absolute path, then by
    /// name, after adding the item's theme path to the search path when it
    /// has a non-empty one.
    Named { try_file: bool, add_theme_path: bool },
    /// Nothing usable: the image is cleared.
    Clear,
}

pub open spec fn image_plan_spec(item: TrayItem) -> ImagePlan {
    let pix_ok = match item.icon {
        Some(i) => i.width > 0 && i.height > 0 && i.rgba@.len() == i.width * i.height * 4,
        None => false,
    };
    if pix_ok {
        ImagePlan::Pixmap
    } else {
        match item.icon_name {
            Some(n) => if n@.len() > 0 {
                ImagePlan::Named {
                    try_file: n@[0] == '/',
                    add_theme_path: match item.icon_theme_path {
                        Some(t) => t@.len() > 0,
                        None => false,
                    },
                }
            } else {
                ImagePlan::Clear
            },
            None => ImagePlan::Clear,
        }
    }
}

pub fn image_plan(item: &TrayItem) -> (r: ImagePlan)
    ensures
        r == image_plan_spec(*item),
{
    let pix_ok = match &item.icon {
        Some(i) => pixmap_usable(i.width, i.height, i.rgba.len()),
        None => false,
    };
    if pix_ok {
        return ImagePlan::Pixmap;
    }
    match &item.icon_name {
        Some(n) => {
            let nc = chars_of(n.as_str());
            if nc.len() > 0 {
                let add = match &item.icon_theme_path {
                    Some(t) => chars_of(t.as_str()).len() > 0,
                    None => false,
                };
                ImagePlan::Named { try_file: nc[0] == '/', add_theme_path: add }
            } else {
                ImagePlan::Clear
            }
        },
        None => ImagePlan::Clear,
    }
}

/// A usable pixmap (both sides positive, four bytes per pixel) is always
/// what an item shows, whatever icon name it also carries. Without one, a
/// non-empty icon name is looked up (as a file first when it starts with
/// `/`, in the item's theme path when it has a non-empty one), and with
/// neither the image is cleared.
pub proof fn law_pixmap_first(item: TrayItem)
    ensures
        (item.icon matches Some(i) && i.width > 0 && i.height > 0 && i.rgba@.len() == i.width * i.height * 4)
            ==> image_plan_spec(item) == ImagePlan::Pixmap,
        !(item.icon matches Some(i) && i.width > 0 && i.height > 0 && i.rgba@.len() == i.width * i.height * 4)
            ==> match item.icon_name {
            Some(n) => if n@.len() > 0 {
                &&& image_plan_spec(item) matches ImagePlan::Named { try_file, add_theme_path }
                &&& try_file <==> n@[0] == '/'
                &&& add_theme_path <==> (item.icon_theme_path matches Some(t) && t@.len() > 0)
            } else {
                image_plan_spec(item) == ImagePlan::Clear
            },
            None => image_plan_spec(item) == ImagePlan::Clear,
        },
{
}

/// What is remembered of an item to tell what changed: a cheap signature
/// of the pixmap (width, height, length, first and last byte), the
/// tooltip text and the menu's signature.
#[derive(Clone, Debug, PartialEq, Eq)]
pub struct CachedIcon {
    pub icon_sig: Option<(i32, i32, usize, u8, u8)>,
    pub title: Option<String>,
    pub menu: Vec<MenuToken>,
}

pub open spec fn cached_view(c: CachedIcon) -> (Option<(i32, i32, usize, u8, u8)>, Option<Seq<char>>, Seq<(int, int, Seq<char>, bool)>) {
    (
        c.icon_sig,
        match c.title {
            Some(t) => Some(t@),
            None => None,
        },
        tokens_view(c.menu@),
    )
}

/// The pixmap signature; a missing first or last byte counts as 0.
pub open spec fn icon_sig_of(i: TrayIcon) -> (i32, i32, usize, u8, u8) {
    (
        i.width,
        i.height,
        i.rgba@.len() as usize,
        if i.rgba@.len() > 0 { i.rgba@[0] } else { 0 },
        if i.rgba@.len() > 0 { i.rgba@.last() } else { 0 },
    )
}

/// The cache of an item: its pixmap signature, its tooltip (else its
/// title), its menu's signature.
pub fn compute_cached(item: &TrayItem) -> (r: CachedIcon)
    ensures
        r.icon_sig == match item.icon {
            Some(i) => Some(icon_sig_of(i)),
            None => None,
        },
        cached_view(r).1 == match item.tooltip {
            Some(t) => Some(t@),
            None => match item.title {
                Some(t) => Some(t@),
                None => None,
            },
        },
        tokens_view(r.menu@) == menu_walk(item.menu@),
{
    let icon_sig = match &item.icon {
        Some(i) => {
            let n = i.rgba.len();
            let first = if n > 0 {
                i.rgba[0]
            } else {
                0
            };
            let last = if n > 0 {
                i.rgba[n - 1]
            } else {
                0
            };
            Some((i.width, i.height, n, first, last))
        },
        None => None,
    };
    let title = match &item.tooltip {
        Some(t) => Some(t.clone()),
        None => match &item.title {
            Some(t) => Some(t.clone()),
            None => None,
        },
    };
    CachedIcon { icon_sig, title, menu: menu_signature(&item.menu) }
}

fn opt_str_eq(a: &Option<String>, b: &Option<String>) -> (r: bool)
    ensures
        r == (match *a {
            Some(t) => Some(t@),
            None => None,
        } == match *b {
            Some(t) => Some(t@),
            None => None,
        }),
{
    match (a, b) {
        (Some(x), Some(y)) => str_eq(x.as_str(), y.as_str()),
        (None, None) => true,
        _ => false,
    }
}

/// What the bar does for one item of the new list.
#[derive(Clone, Copy, Debug, PartialEq, Eq, Structural)]
pub struct SlotUpdate {
    /// Build a new icon button for it.
    pub create: bool,
    /// Move its button to the end (its position in the old order differs).
    pub reposition: bool,
    /// Set the image again.
    pub image: bool,
    /// Set the tooltip again.
    pub tooltip: bool,
    /// Rebuild the menu.
    pub menu: bool,
}

pub type CacheView = (Option<(i32, i32, usize, u8, u8)>, Option<Seq<char>>, Seq<(int, int, Seq<char>, bool)>);

/// The first slot with id `id`.
pub open spec fn find_slot(slots: Seq<(Seq<char>, CacheView)>, id: Seq<char>) -> Option<int>
    decreases slots.len(),
{
    if slots.len() == 0 {
        None
    } else if slots[0].0 == id {
        Some(0)
    } else {
        match find_slot(slots.drop_first(), id) {
            Some(j) => Some(j + 1),
            None => None,
        }
    }
}

/// One item of the walk: a missing slot is created (and everything set);
/// an existing one sets what changed; either way it keeps the new cache.
pub open spec fn slot_step(slots: Seq<(Seq<char>, CacheView)>, old_order: Seq<Seq<char>>, idx: int, id: Seq<char>, c: CacheView) -> (Seq<(Seq<char>, CacheView)>, SlotUpdate) {
    let reposition = !(idx < old_order.len() && old_order[idx] == id);
    match find_slot(slots, id) {
        None => (slots.push((id, c)), SlotUpdate { create: true, reposition, image: true, tooltip: true, menu: true }),
        Some(j) => (
            slots.update(j, (id, c)),
            SlotUpdate {
                create: false,
                reposition,
                image: slots[j].1.0 != c.0,
                tooltip: slots[j].1.1 != c.1,
                menu: slots[j].1.2 != c.2,
            },
        ),
    }
}

/// The slots and updates after the first `n` items.
pub open spec fn walk_items(slots: Seq<(Seq<char>, CacheView)>, old_order: Seq<Seq<char>>, items: Seq<(Seq<char>, CacheView)>, n: int) -> (Seq<(Seq<char>, CacheView)>, Seq<SlotUpdate>)
    decreases n,
{
    if n <= 0 {
        (slots, Seq::<SlotUpdate>::empty())
    } else {
        let (s, u) = walk_items(slots, old_order, items, n - 1);
        let (s2, up) = slot_step(s, old_order, n - 1, items[n - 1].0, items[n - 1].1);
        (s2, u.push(up))
    }
}

pub open spec fn slots_view(v: Seq<(String, CachedIcon)>) -> Seq<(Seq<char>, CacheView)> {
    v.map_values(|e: (String, CachedIcon)| (e.0@, cached_view(e.1)))
}

pub open spec fn ids_view(v: Seq<String>) -> Seq<Seq<char>> {
    v.map_values(|s: String| s@)
}

/// Some item has this id.
pub open spec fn has_item(items: Seq<(Seq<char>, CacheView)>, id: Seq<char>) -> bool {
    exists|i: int| 0 <= i < items.len() && #[trigger] items[i].0 == id
}

/// The slots kept: those whose id is still present, in their order.
pub open spec fn kept_slots(slots: Seq<(Seq<char>, CacheView)>, items: Seq<(Seq<char>, CacheView)>) -> Seq<(Seq<char>, CacheView)>
    decreases slots.len(),
{
    if slots.len() == 0 {
        slots
    } else {
        let rest = kept_slots(slots.drop_last(), items);
        if has_item(items, slots.last().0) {
            rest.push(slots.last())
        } else {
            rest
        }
    }
}

/// The removed slots' positions.
pub open spec fn removed_slots(slots: Seq<(Seq<char>, CacheView)>, items: Seq<(Seq<char>, CacheView)>) -> Seq<usize>
    decreases slots.len(),
{
    if slots.len() == 0 {
        Seq::empty()
    } else {
        let rest = removed_slots(slots.drop_last(), items);
        if has_item(items, slots.last().0) {
            rest
        } else {
            rest.push((slots.len() - 1) as usize)
        }
    }
}

/// The outcome of reconciling.
#[derive(Clone, Debug, PartialEq, Eq)]
pub struct TrayPlan {
    /// Whether the capsule is shown (some item is present).
    pub visible: bool,
    /// Positions of the old slots whose buttons are removed.
    pub removed: Vec<usize>,
    /// One update per new item, in order.
    pub updates: Vec<SlotUpdate>,
    /// The slots afterwards.
    pub slots: Vec<(String, CachedIcon)>,
    /// The order afterwards: the new items' ids.
    pub order: Vec<String>,
}

fn sig_eq(a: Option<(i32, i32, usize, u8, u8)>, b: Option<(i32, i32, usize, u8, u8)>) -> (r: bool)
    ensures
        r == (a == b),
{
    match (a, b) {
        (Some(x), Some(y)) => x.0 == y.0 && x.1 == y.1 && x.2 == y.2 && x.3 == y.3 && x.4 == y.4,
        (None, None) => true,
        _ => false,
    }
}

fn has_id(items: &Vec<(String, CachedIcon)>, id: &String) -> (r: bool)
    ensures
        r == has_item(slots_view(items@), id@),
{
    for i in 0..items.len()
        invariant
            forall|k: int| 0 <= k < i ==> #[trigger] slots_view(items@)[k].0 != id@,
    {
        if str_eq(items[i].0.as_str(), id.as_str()) {
            assert(slots_view(items@)[i as int].0 == id@);
            return true;
        }
    }
    false
}

proof fn lemma_find_slot(s: Seq<(Seq<char>, CacheView)>, id: Seq<char>, j: int)
    requires
        0 <= j <= s.len(),
        forall|k: int| 0 <= k < j ==> #[trigger] s[k].0 != id,
    ensures
        j == s.len() ==> find_slot(s, id) is None,
        j < s.len() && s[j].0 == id ==> find_slot(s, id) == Some(j),
    decreases j,
{
    if s.len() > 0 {
        if j > 0 {
            assert forall|k: int| 0 <= k < j - 1 implies #[trigger] s.drop_first()[k].0 != id by {
                assert(s.drop_first()[k] == s[k + 1]);
            }
            lemma_find_slot(s.drop_first(), id, j - 1);
        }
    }
}

fn find_slot_exec(slots: &Vec<(String, CachedIcon)>, id: &String) -> (r: Option<usize>)
    ensures
        r matches Some(k) ==> find_slot(slots_view(slots@), id@) == Some(k as int) && k < slots@.len(),
        r is None ==> find_slot(slots_view(slots@), id@) is None,
{
    let ghost sv = slots_view(slots@);
    for i in 0..slots.len()
        invariant
            sv == slots_view(slots@),
            forall|k: int| 0 <= k < i ==> #[trigger] sv[k].0 != id@,
    {
        if str_eq(slots[i].0.as_str(), id.as_str()) {
            proof {
                lemma_find_slot(sv, id@, i as int);
            }
            return Some(i);
        }
    }
    proof {
        lemma_find_slot(sv, id@, sv.len() as int);
    }
    None
}

/// Reconciles the bar's slots (each item id with its cache) and the order
/// of the icons shown with a new list of items (each id with the cache
/// computed for it): slots whose id is gone are removed; then each item in
/// turn is created or updated (see `slot_step`).
pub fn reconcile(order: &Vec<String>, slots: Vec<(String, CachedIcon)>, items: Vec<(String, CachedIcon)>) -> (r: TrayPlan)
    ensures
        r.visible == (items@.len() > 0),
        r.removed@ == removed_slots(slots_view(slots@), slots_view(items@)),
        ({
            let (s, u) = walk_items(
                kept_slots(slots_view(slots@), slots_view(items@)),
                ids_view(order@),
                slots_view(items@),
                items@.len() as int,
            );
            slots_view(r.slots@) == s && r.updates@ == u
        }),
        ids_view(r.order@) == slots_view(items@).map_values(|e: (Seq<char>, CacheView)| e.0),
{
    let ghost sv0 = slots_view(slots@);
    let ghost iv = slots_view(items@);
    let visible = items.len() > 0;
    // Drop the slots whose id is gone.
    let mut slots = slots;
    let mut kept: Vec<(String, CachedIcon)> = Vec::new();
    let mut removed: Vec<usize> = Vec::new();
    let n_old = slots.len();
    let mut j: usize = 0;
    while j < n_old
        invariant
            j <= n_old == sv0.len(),
            slots@.len() == n_old - j,
            slots_view(slots@) == sv0.skip(j as int),
            slots_view(kept@) == kept_slots(sv0.take(j as int), iv),
            removed@ == removed_slots(sv0.take(j as int), iv),
            iv == slots_view(items@),
        decreases n_old - j,
    {
        let ghost old_s = slots@;
        let e = slots.remove(0);
        proof {
            assert(e == old_s[0]);
            assert(slots_view(old_s)[0] == (e.0@, cached_view(e.1)));
            assert(sv0.skip(j as int)[0] == (e.0@, cached_view(e.1)));
            assert(slots@ =~= old_s.subrange(1, old_s.len() as int));
            assert(slots_view(slots@) =~= slots_view(old_s).subrange(1, old_s.len() as int));
            assert(sv0.skip(j as int).subrange(1, old_s.len() as int) =~= sv0.skip(j + 1));
            assert(sv0.take(j + 1).drop_last() =~= sv0.take(j as int));
            assert(sv0.take(j + 1).last() == sv0[j as int]);
        }
        if has_id(&items, &e.0) {
            let ghost k0 = slots_view(kept@);
            kept.push(e);
            assert(slots_view(kept@) =~= k0.push((e.0@, cached_view(e.1))));
        } else {
            removed.push(j);
        }
        j = j + 1;
    }
    proof {
        assert(sv0.take(n_old as int) =~= sv0);
    }
    // Walk the new items.
    let ghost ov = ids_view(order@);
    let ghost start = slots_view(kept@);
    let mut items = items;
    let mut updates: Vec<SlotUpdate> = Vec::new();
    let mut new_order: Vec<String> = Vec::new();
    let n = items.len();
    let mut idx: usize = 0;
    while idx < n
        invariant
            idx <= n == iv.len(),
            items@.len() == n - idx,
            slots_view(items@) == iv.skip(idx as int),
            ov == ids_view(order@),
            ({
                let (s, u) = walk_items(start, ov, iv, idx as int);
                slots_view(kept@) == s && updates@ == u
            }),
            ids_view(new_order@) == iv.take(idx as int).map_values(|e: (Seq<char>, CacheView)| e.0),
        decreases n - idx,
    {
        let ghost old_i = items@;
        let (id, cache) = items.remove(0);
        proof {
            assert((id, cache) == old_i[0]);
            assert(slots_view(old_i)[0] == (id@, cached_view(cache)));
            assert(iv.skip(idx as int)[0] == (id@, cached_view(cache)));
            assert(items@ =~= old_i.subrange(1, old_i.len() as int));
            assert(slots_view(items@) =~= slots_view(old_i).subrange(1, old_i.len() as int));
            assert(iv.skip(idx as int).subrange(1, old_i.len() as int) =~= iv.skip(idx + 1));
            assert(iv[idx as int] == (id@, cached_view(cache)));
        }
        let ghost sv = slots_view(kept@);
        let reposition = !(idx < order.len() && str_eq(order[idx].as_str(), id.as_str()));
        proof {
            if idx < order@.len() {
                assert(ov[idx as int] == order@[idx as int]@);
            }
        }
        let ghost nid = id@;
        let ghost onew = new_order@;
        new_order.push(id.clone());
        proof {
            assert(ids_view(new_order@) =~= ids_view(onew).push(nid));
            assert(iv.take(idx + 1).map_values(|e: (Seq<char>, CacheView)| e.0) =~= iv.take(idx as int).map_values(
                |e: (Seq<char>, CacheView)| e.0,
            ).push(nid));
        }
        let ghost cv = cached_view(cache);
        let ghost uold = updates@;
        proof {
            assert(ov.len() == order@.len());
            assert(reposition == !(idx < ov.len() && ov[idx as int] == nid));
        }
        match find_slot_exec(&kept, &id) {
            None => {
                kept.push((id, cache));
                updates.push(SlotUpdate { create: true, reposition, image: true, tooltip: true, menu: true });
                proof {
                    assert(slots_view(kept@) =~= sv.push((nid, cv)));
                    assert(slot_step(sv, ov, idx as int, nid, cv) == (slots_view(kept@), updates@.last()));
                    assert(updates@ =~= uold.push(updates@.last()));
                }
            },
            Some(k) => {
                let image = !sig_eq(kept[k].1.icon_sig, cache.icon_sig);
                let tooltip = !opt_str_eq(&kept[k].1.title, &cache.title);
                let menu = !same_signature(&kept[k].1.menu, &cache.menu);
                proof {
                    assert(sv[k as int] == (kept@[k as int].0@, cached_view(kept@[k as int].1)));
                    assert(image == (sv[k as int].1.0 != cv.0));
                    assert(tooltip == (sv[k as int].1.1 != cv.1));
                    assert(menu == (sv[k as int].1.2 != cv.2));
                    assert(find_slot(sv, nid) == Some(k as int));
                }
                kept.set(k, (id, cache));
                updates.push(SlotUpdate { create: false, reposition, image, tooltip, menu });
                proof {
                    assert(slots_view(kept@) =~= sv.update(k as int, (nid, cv)));
                    assert(slot_step(sv, ov, idx as int, nid, cv) == (slots_view(kept@), updates@.last()));
                    assert(updates@ =~= uold.push(updates@.last()));
                }
            },
        }
        idx = idx + 1;
    }
    TrayPlan { visible, removed, updates, slots: kept, order: new_order }
}

// ── reconciling twice ───────────────────────────────────────────────────

/// No two items share an id.
pub open spec fn distinct_ids(items: Seq<(Seq<char>, CacheView)>) -> bool {
    forall|a: int, b: int| 0 <= a < b < items.len() ==> #[trigger] items[a].0 != #[trigger] items[b].0
}

/// The first slot with this id holds this cache.
pub open spec fn holds_item(slots: Seq<(Seq<char>, CacheView)>, id: Seq<char>, c: CacheView) -> bool {
    match find_slot(slots, id) {
        Some(j) => slots[j].1 == c,
        None => false,
    }
}

/// The update that touches nothing.
pub open spec fn settled_update() -> SlotUpdate {
    SlotUpdate { create: false, reposition: false, image: false, tooltip: false, menu: false }
}

proof fn lemma_find_slot_result(s: Seq<(Seq<char>, CacheView)>, id: Seq<char>)
    ensures
        match find_slot(s, id) {
            Some(j) => 0 <= j < s.len() && s[j].0 == id && forall|k: int| 0 <= k < j ==> #[trigger] s[k].0 != id,
            None => forall|k: int| 0 <= k < s.len() ==> #[trigger] s[k].0 != id,
        },
    decreases s.len(),
{
    if s.len() > 0 {
        let t = s.drop_first();
        lemma_find_slot_result(t, id);
        if s[0].0 != id {
            match find_slot(t, id) {
                Some(j) => {
                    assert forall|k: int| 0 <= k < j + 1 implies #[trigger] s[k].0 != id by {
                        if k > 0 {
                            assert(s[k] == t[k - 1]);
                        }
                    }
                    assert(s[j + 1] == t[j]);
                },
                None => {
                    assert forall|k: int| 0 <= k < s.len() implies #[trigger] s[k].0 != id by {
                        if k > 0 {
                            assert(s[k] == t[k - 1]);
                        }
                    }
                },
            }
        }
    }
}

proof fn lemma_kept_slots_from(slots: Seq<(Seq<char>, CacheView)>, items: Seq<(Seq<char>, CacheView)>)
    ensures
        forall|t: int| 0 <= t < kept_slots(slots, items).len() ==> has_item(items, #[trigger] kept_slots(slots, items)[t].0),
    decreases slots.len(),
{
    if slots.len() > 0 {
        lemma_kept_slots_from(slots.drop_last(), items);
        let rest = kept_slots(slots.drop_last(), items);
        if has_item(items, slots.last().0) {
            assert forall|t: int| 0 <= t < rest.push(slots.last()).len() implies has_item(
                items,
                #[trigger] rest.push(slots.last())[t].0,
            ) by {
                if t < rest.len() {
                    assert(rest.push(slots.last())[t] == rest[t]);
                }
            }
        }
    }
}

proof fn lemma_all_kept(s: Seq<(Seq<char>, CacheView)>, items: Seq<(Seq<char>, CacheView)>)
    requires
        forall|t: int| 0 <= t < s.len() ==> has_item(items, #[trigger] s[t].0),
    ensures
        kept_slots(s, items) == s,
        removed_slots(s, items).len() == 0,
    decreases s.len(),
{
    if s.len() > 0 {
        assert(has_item(items, s[s.len() - 1].0));
        lemma_all_kept(s.drop_last(), items);
        assert(s.drop_last().push(s.last()) =~= s);
    }
}

proof fn lemma_first_walk(
    k0: Seq<(Seq<char>, CacheView)>,
    o: Seq<Seq<char>>,
    items: Seq<(Seq<char>, CacheView)>,
    n: int,
)
    requires
        0 <= n <= items.len(),
        distinct_ids(items),
        forall|t: int| 0 <= t < k0.len() ==> has_item(items, #[trigger] k0[t].0),
    ensures
        forall|t: int|
            0 <= t < walk_items(k0, o, items, n).0.len() ==> has_item(items, #[trigger] walk_items(k0, o, items, n).0[t].0),
        forall|i: int| 0 <= i < n ==> holds_item(walk_items(k0, o, items, n).0, #[trigger] items[i].0, items[i].1),
    decreases n,
{
    if n > 0 {
        lemma_first_walk(k0, o, items, n - 1);
        let s = walk_items(k0, o, items, n - 1).0;
        let id = items[n - 1].0;
        let c = items[n - 1].1;
        let s2 = slot_step(s, o, n - 1, id, c).0;
        assert(s2 == walk_items(k0, o, items, n).0);
        lemma_find_slot_result(s, id);
        assert(has_item(items, items[n - 1].0));
        assert forall|t: int| 0 <= t < s2.len() implies has_item(items, #[trigger] s2[t].0) by {
            match find_slot(s, id) {
                None => {
                    if t < s.len() {
                        assert(s2[t] == s[t]);
                    }
                },
                Some(j) => {
                    if t != j {
                        assert(s2[t] == s[t]);
                    }
                },
            }
        }
        assert forall|i: int| 0 <= i < n implies holds_item(s2, #[trigger] items[i].0, items[i].1) by {
            if i == n - 1 {
                match find_slot(s, id) {
                    None => {
                        assert forall|k: int| 0 <= k < s.len() implies #[trigger] s2[k].0 != id by {
                            assert(s2[k] == s[k]);
                        }
                        lemma_find_slot(s2, id, s.len() as int);
                    },
                    Some(j) => {
                        assert forall|k: int| 0 <= k < j implies #[trigger] s2[k].0 != id by {
                            assert(s2[k] == s[k]);
                        }
                        lemma_find_slot(s2, id, j);
                    },
                }
            } else {
                let idi = items[i].0;
                assert(idi != id);
                assert(holds_item(s, idi, items[i].1));
                lemma_find_slot_result(s, idi);
                let ji = find_slot(s, idi)->0;
                match find_slot(s, id) {
                    None => {
                        assert forall|k: int| 0 <= k < ji implies #[trigger] s2[k].0 != idi by {
                            assert(s2[k] == s[k]);
                        }
                        assert(s2[ji] == s[ji]);
                        lemma_find_slot(s2, idi, ji);
                    },
                    Some(j) => {
                        assert(j != ji);
                        assert forall|k: int| 0 <= k < ji implies #[trigger] s2[k].0 != idi by {
                            if k != j {
                                assert(s2[k] == s[k]);
                            }
                        }
                        assert(s2[ji] == s[ji]);
                        lemma_find_slot(s2, idi, ji);
                    },
                }
            }
        }
    }
}

proof fn lemma_second_walk(s1: Seq<(Seq<char>, CacheView)>, items: Seq<(Seq<char>, CacheView)>, n: int)
    requires
        0 <= n <= items.len(),
        forall|i: int| 0 <= i < items.len() ==> holds_item(s1, #[trigger] items[i].0, items[i].1),
    ensures
        walk_items(s1, items.map_values(|e: (Seq<char>, CacheView)| e.0), items, n).0 == s1,
        walk_items(s1, items.map_values(|e: (Seq<char>, CacheView)| e.0), items, n).1 == Seq::new(
            n as nat,
            |k: int| settled_update(),
        ),
    decreases n,
{
    let o = items.map_values(|e: (Seq<char>, CacheView)| e.0);
    if n > 0 {
        lemma_second_walk(s1, items, n - 1);
        let id = items[n - 1].0;
        let c = items[n - 1].1;
        assert(holds_item(s1, id, c));
        lemma_find_slot_result(s1, id);
        let j = find_slot(s1, id)->0;
        assert(s1[j] == (id, c));
        assert(s1.update(j, (id, c)) =~= s1);
        assert(o[n - 1] == id);
        let u = walk_items(s1, o, items, n - 1).1;
        assert(u.push(settled_update()) =~= Seq::new(n as nat, |k: int| settled_update()));
    } else {
        assert(Seq::<SlotUpdate>::empty() =~= Seq::new(0, |k: int| settled_update()));
    }
}

/// Reconciling the same items a second time changes nothing: no slot is
/// removed, the slots stay as they are, and no item is created, moved, or
/// has its image, tooltip or menu set again, so unchanged icons are not
/// rebuilt. Items are told apart by their ids.
pub proof fn law_reconcile_settles(
    slots: Seq<(Seq<char>, CacheView)>,
    old_order: Seq<Seq<char>>,
    items: Seq<(Seq<char>, CacheView)>,
)
    requires
        distinct_ids(items),
    ensures
        ({
            let s1 = walk_items(kept_slots(slots, items), old_order, items, items.len() as int).0;
            let order1 = items.map_values(|e: (Seq<char>, CacheView)| e.0);
            let (s2, u2) = walk_items(kept_slots(s1, items), order1, items, items.len() as int);
            &&& removed_slots(s1, items).len() == 0
            &&& s2 == s1
            &&& u2.len() == items.len()
            &&& forall|k: int| 0 <= k < u2.len() ==> #[trigger] u2[k] == settled_update()
        }),
{
    let k0 = kept_slots(slots, items);
    lemma_kept_slots_from(slots, items);
    lemma_first_walk(k0, old_order, items, items.len() as int);
    let s1 = walk_items(k0, old_order, items, items.len() as int).0;
    lemma_all_kept(s1, items);
    lemma_second_walk(s1, items, items.len() as int);
}

/// A click on the tray capsule toggles it, and from then on its width
/// animates: the new `(expanded, ever_expanded)`.
pub fn tray_clicked(expanded: bool) -> (r: (bool, bool))
    ensures
        r == (!expanded, true),
{
    (!expanded, true)
}

} // verus!
