//! Where the window title's application icon is looked up: the names
//! tried for an app id, the `.desktop` files read for its `Icon=` entry,
//! and the ordered list of places searched.

use vstd::prelude::*;

use crate::text::{chars_of, lines, owned, split_lines, starts_with, strip_prefix, trim, trimmed, views};
use crate::tray::{candidate_view, IconCandidate};

verus! {

/// What `str::to_lowercase` gives (Unicode lower case).
pub uninterp spec fn unicode_lower(s: Seq<char>) -> Seq<char>;

/// Calls `str::to_lowercase`; its result, Unicode lower-casing, is named,
/// not stated.
#[verifier::external_body]
pub(crate) fn to_lowercase(s: &str) -> (r: String)
    ensures
        r@ == unicode_lower(s@),
{
    s.to_lowercase()
}

/// The last `.`-separated part of an app id (all of it without a dot).
pub open spec fn short_name(s: Seq<char>) -> Seq<char>
    decreases s.len(),
{
    if s.len() == 0 {
        s
    } else if s.last() == '.' {
        Seq::<char>::empty()
    } else {
        short_name(s.drop_last()).push(s.last())
    }
}

fn short_name_exec(s: &Vec<char>) -> (r: Vec<char>)
    ensures
        r@ == short_name(s@),
{
    let mut lo = s.len();
    assert(s@.subrange(0, lo as int) =~= s@);
    assert(s@.subrange(lo as int, s@.len() as int) =~= Seq::<char>::empty());
    assert(short_name(s@) + s@.subrange(lo as int, s@.len() as int) =~= short_name(s@));
    while lo > 0 && s[lo - 1] != '.'
        invariant
            lo <= s@.len(),
            short_name(s@) == short_name(s@.subrange(0, lo as int)) + s@.subrange(lo as int, s@.len() as int),
        decreases lo,
    {
        let ghost pre = s@.subrange(0, lo as int);
        assert(pre.drop_last() =~= s@.subrange(0, lo - 1));
        assert(short_name(pre) == short_name(s@.subrange(0, lo - 1)).push(s@[lo - 1]));
        assert(short_name(s@.subrange(0, lo - 1)).push(s@[lo - 1]) + s@.subrange(lo as int, s@.len() as int)
            =~= short_name(s@.subrange(0, lo - 1)) + s@.subrange(lo - 1, s@.len() as int));
        lo = lo - 1;
    }
    proof {
        if lo == 0 {
            assert(s@.subrange(0, 0) =~= Seq::<char>::empty());
        } else {
            assert(short_name(s@.subrange(0, lo as int)) =~= Seq::<char>::empty());
        }
        assert(Seq::<char>::empty() + s@.subrange(lo as int, s@.len() as int) =~= s@.subrange(lo as int, s@.len() as int));
    }
    crate::text::slice_vec(s, lo, s.len())
}

/// The names tried for an app id: the id, its last part, and both lower
/// cased.
pub open spec fn name_candidates(app_id: Seq<char>) -> Seq<Seq<char>> {
    seq![app_id, short_name(app_id), unicode_lower(app_id), unicode_lower(short_name(app_id))]
}

pub fn app_names(app_id: &str) -> (r: Vec<String>)
    ensures
        r@.map_values(|s: String| s@) == name_candidates(app_id@),
{
    let short = crate::text::string_of(&short_name_exec(&chars_of(app_id)));
    let mut v: Vec<String> = Vec::new();
    v.push(owned(app_id));
    let sl = to_lowercase(short.as_str());
    v.push(short);
    v.push(to_lowercase(app_id));
    v.push(sl);
    assert(v@.map_values(|s: String| s@) =~= name_candidates(app_id@));
    v
}

/// The `.desktop` files read, in order: for each applications directory,
/// each name with `.desktop` appended.
pub open spec fn desktop_files_spec(app_id: Seq<char>) -> Seq<Seq<char>> {
    if app_id.len() == 0 {
        Seq::empty()
    } else {
        Seq::new(
            8,
            |k: int|
                (if k < 4 {
                    "/usr/share/applications/"@
                } else {
                    "/usr/local/share/applications/"@
                }) + name_candidates(app_id)[k % 4] + ".desktop"@,
        )
    }
}

pub fn desktop_files(app_id: &str) -> (r: Vec<String>)
    ensures
        r@.map_values(|s: String| s@) == desktop_files_spec(app_id@),
        app_id@.len() == 0 ==> r@.len() == 0,
{
    if chars_of(app_id).len() == 0 {
        let v: Vec<String> = Vec::new();
        assert(v@.map_values(|s: String| s@) =~= Seq::<Seq<char>>::empty());
        return v;
    }
    let names = app_names(app_id);
    assert(names@.map_values(|s: String| s@).len() == 4);
    let dirs = vec!["/usr/share/applications/", "/usr/local/share/applications/"];
    let mut v: Vec<String> = Vec::new();
    for d in 0..2usize
        invariant
            app_id@.len() > 0,
            dirs@ == seq!["/usr/share/applications/", "/usr/local/share/applications/"],
            names@.len() == 4,
            names@.map_values(|s: String| s@) == name_candidates(app_id@),
            v@.len() == d * 4,
            forall|k: int| 0 <= k < v@.len() ==> #[trigger] v@[k]@ == desktop_files_spec(app_id@)[k],
    {
        for n in 0..4usize
            invariant
                d < 2,
                app_id@.len() > 0,
                dirs@ == seq!["/usr/share/applications/", "/usr/local/share/applications/"],
                names@.len() == 4,
                names@.map_values(|s: String| s@) == name_candidates(app_id@),
                v@.len() == d * 4 + n,
                forall|k: int| 0 <= k < v@.len() ==> #[trigger] v@[k]@ == desktop_files_spec(app_id@)[k],
        {
            let mut p = owned(dirs[d]);
            p.append(names[n].as_str());
            p.append(".desktop");
            proof {
                let k = d * 4 + n;
                assert(names@.map_values(|s: String| s@)[n as int] == names@[n as int]@);
                assert(k % 4 == n);
            }
            v.push(p);
        }
    }
    assert(v@.map_values(|s: String| s@) =~= desktop_files_spec(app_id@));
    v
}

/// The `Icon=` entry of a `.desktop` file: the rest of the first line that
/// starts with it, trimmed.
pub open spec fn icon_entry(ls: Seq<Seq<char>>) -> Option<Seq<char>>
    decreases ls.len(),
{
    if ls.len() == 0 {
        None
    } else if starts_with(ls[0], "Icon="@) {
        Some(trim(ls[0].subrange(5, ls[0].len() as int)))
    } else {
        icon_entry(ls.drop_first())
    }
}

pub fn desktop_icon_field(contents: &str) -> (r: Option<String>)
    ensures
        match icon_entry(lines(contents@)) {
            Some(v) => r is Some && r->0@ == v,
            None => r is None,
        },
{
    let ls = split_lines(&chars_of(contents));
    let key = chars_of("Icon=");
    proof {
        reveal_strlit("Icon=");
    }
    let mut i: usize = 0;
    assert(views(ls@).skip(0) =~= views(ls@));
    while i < ls.len()
        invariant
            i <= ls.len(),
            views(ls@) == lines(contents@),
            key@ == "Icon="@,
            "Icon="@.len() == 5,
            icon_entry(lines(contents@)) == icon_entry(views(ls@).skip(i as int)),
        decreases ls.len() - i,
    {
        let ghost rest = views(ls@).skip(i as int);
        assert(rest[0] == ls@[i as int]@);
        assert(rest.drop_first() =~= views(ls@).skip(i + 1));
        match strip_prefix(&ls[i], &key) {
            Some(tail) => {
                return Some(crate::text::string_of(&trimmed(&tail)));
            },
            None => {},
        }
        i = i + 1;
    }
    assert(views(ls@).skip(i as int) =~= Seq::<Seq<char>>::empty());
    None
}

/// The pixmaps directory's files for a name.
pub open spec fn pixmap_files(n: Seq<char>) -> Seq<(bool, Seq<char>)> {
    seq![
        (true, "/usr/share/pixmaps/"@ + n + ".png"@),
        (true, "/usr/share/pixmaps/"@ + n + ".svg"@),
        (true, "/usr/share/pixmaps/"@ + n + ".xpm"@),
    ]
}

/// All the places the window title's icon is looked for, in order: the
/// icon theme for each name of the app id; then, when a `.desktop` file
/// gave an icon name, that name as a file if it is an absolute path, in the
/// icon theme, and in the pixmaps directory; then each name's hicolor
/// scalable SVG; then each name in the pixmaps directory.
pub open spec fn app_icon_candidates_spec(app_id: Seq<char>, desktop_icon: Option<Seq<char>>) -> Seq<(bool, Seq<char>)> {
    if app_id.len() == 0 {
        Seq::empty()
    } else {
        app_icon_places(app_id, desktop_icon)
    }
}

/// The places for a non-empty app id.
pub open spec fn app_icon_places(app_id: Seq<char>, desktop_icon: Option<Seq<char>>) -> Seq<(bool, Seq<char>)> {
    let ns = name_candidates(app_id);
    let themes = ns.map_values(|n: Seq<char>| (false, n));
    let desk = match desktop_icon {
        Some(d) => (if d.len() > 0 && d[0] == '/' { seq![(true, d)] } else { Seq::empty() }) + seq![(false, d)]
            + pixmap_files(d),
        None => Seq::empty(),
    };
    let scalable = ns.map_values(|n: Seq<char>| (true, "/usr/share/icons/hicolor/scalable/apps/"@ + n + ".svg"@));
    let pix = pixmap_files(ns[0]) + pixmap_files(ns[1]) + pixmap_files(ns[2]) + pixmap_files(ns[3]);
    themes + desk + scalable + pix
}

fn push_file(v: &mut Vec<IconCandidate>, a: &str, b: &str, c: &str)
    ensures
        final(v)@.map_values(|x: IconCandidate| candidate_view(x)) == old(v)@.map_values(|x: IconCandidate| candidate_view(x)).push((true, a@ + b@ + c@)),
{
    let ghost before = v@.map_values(|x: IconCandidate| candidate_view(x));
    let mut s = owned(a);
    s.append(b);
    s.append(c);
    v.push(IconCandidate::File(s));
    assert(v@.map_values(|x: IconCandidate| candidate_view(x)) =~= before.push((true, a@ + b@ + c@)));
}

fn push_theme(v: &mut Vec<IconCandidate>, n: &str)
    ensures
        final(v)@.map_values(|x: IconCandidate| candidate_view(x)) == old(v)@.map_values(|x: IconCandidate| candidate_view(x)).push((false, n@)),
{
    let ghost before = v@.map_values(|x: IconCandidate| candidate_view(x));
    v.push(IconCandidate::Theme(owned(n)));
    assert(v@.map_values(|x: IconCandidate| candidate_view(x)) =~= before.push((false, n@)));
}

fn push_pixmaps(v: &mut Vec<IconCandidate>, n: &str)
    ensures
        final(v)@.map_values(|x: IconCandidate| candidate_view(x)) == old(v)@.map_values(|x: IconCandidate| candidate_view(x)) + pixmap_files(n@),
{
    let ghost before = v@.map_values(|x: IconCandidate| candidate_view(x));
    push_file(v, "/usr/share/pixmaps/", n, ".png");
    push_file(v, "/usr/share/pixmaps/", n, ".svg");
    push_file(v, "/usr/share/pixmaps/", n, ".xpm");
    assert(v@.map_values(|x: IconCandidate| candidate_view(x)) =~= before + pixmap_files(n@));
}

/// The places searched for an app's icon, none for an empty app id;
/// `desktop_icon` is the `Icon=` entry of the first of its `desktop_files`
/// that could be read and has one.
pub fn app_icon_candidates(app_id: &str, desktop_icon: Option<&str>) -> (r: Vec<IconCandidate>)
    ensures
        r@.map_values(|x: IconCandidate| candidate_view(x)) == app_icon_candidates_spec(
            app_id@,
            match desktop_icon {
                Some(d) => Some(d@),
                None => None,
            },
        ),
        app_id@.len() == 0 ==> r@.len() == 0,
{
    if chars_of(app_id).len() == 0 {
        let v: Vec<IconCandidate> = Vec::new();
        assert(v@.map_values(|x: IconCandidate| candidate_view(x)) =~= Seq::<(bool, Seq<char>)>::empty());
        return v;
    }
    let names = app_names(app_id);
    let ghost ns = name_candidates(app_id@);
    assert(names@.map_values(|s: String| s@).len() == 4);
    proof {
        assert forall|k: int| 0 <= k < 4 implies #[trigger] names@[k]@ == ns[k] by {
            assert(names@.map_values(|s: String| s@)[k] == names@[k]@);
        }
    }
    let mut v: Vec<IconCandidate> = Vec::new();
    push_theme(&mut v, names[0].as_str());
    push_theme(&mut v, names[1].as_str());
    push_theme(&mut v, names[2].as_str());
    push_theme(&mut v, names[3].as_str());
    let ghost themes = v@.map_values(|x: IconCandidate| candidate_view(x));
    assert(themes =~= ns.map_values(|n: Seq<char>| (false, n)));
    match desktop_icon {
        Some(d) => {
            let dc = chars_of(d);
            if dc.len() > 0 && dc[0] == '/' {
                push_file(&mut v, "", d, "");
                proof {
                    reveal_strlit("");
                    assert(""@ + d@ + ""@ =~= d@);
                }
            }
            push_theme(&mut v, d);
            push_pixmaps(&mut v, d);
        },
        None => {},
    }
    let ghost after_desk = v@.map_values(|x: IconCandidate| candidate_view(x));
    push_file(&mut v, "/usr/share/icons/hicolor/scalable/apps/", names[0].as_str(), ".svg");
    push_file(&mut v, "/usr/share/icons/hicolor/scalable/apps/", names[1].as_str(), ".svg");
    push_file(&mut v, "/usr/share/icons/hicolor/scalable/apps/", names[2].as_str(), ".svg");
    push_file(&mut v, "/usr/share/icons/hicolor/scalable/apps/", names[3].as_str(), ".svg");
    let ghost after_scal = v@.map_values(|x: IconCandidate| candidate_view(x));
    assert(after_scal =~= after_desk + ns.map_values(|n: Seq<char>| (true, "/usr/share/icons/hicolor/scalable/apps/"@ + n + ".svg"@)));
    push_pixmaps(&mut v, names[0].as_str());
    push_pixmaps(&mut v, names[1].as_str());
    push_pixmaps(&mut v, names[2].as_str());
    push_pixmaps(&mut v, names[3].as_str());
    proof {
        let dv = match desktop_icon {
            Some(d) => Some(d@),
            None => None,
        };
        let desk = match dv {
            Some(d) => (if d.len() > 0 && d[0] == '/' { seq![(true, d)] } else { Seq::empty() }) + seq![(false, d)]
                + pixmap_files(d),
            None => Seq::empty(),
        };
        assert(after_desk =~= themes + desk);
        assert(v@.map_values(|x: IconCandidate| candidate_view(x)) =~= app_icon_candidates_spec(app_id@, dv));
    }
    v
}

} // verus!
