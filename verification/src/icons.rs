//! Where the image of an icon is looked for.
//!
//! An icon is looked for first in the directories of loose images, then in
//! the directories of the current theme, then in those of the fallback
//! theme. In a theme it is looked for at the size asked for before the
//! scalable images, and among the applications before the file types.

use crate::text::{chars_of, contains, contains_text, join_path, joined, same_text};
use vstd::prelude::*;
use vstd::string::StringExecFns;

verus! {

/// The theme that stands in where the current theme has no image.
pub open spec fn fallback_theme() -> Seq<char> {
    "hicolor"@
}

/// The name of the directory of a size in a theme: `48x48` for the size 48,
/// and `scalable` for the scalable images.
pub open spec fn size_dir(size: Seq<char>) -> Seq<char> {
    if size == "scalable"@ {
        size
    } else {
        size + "x"@ + size
    }
}

/// The sizes at which an icon is looked for, the size asked for first.
pub open spec fn size_at(size: Seq<char>, which: int) -> Seq<char> {
    if which == 0 {
        size
    } else {
        "scalable"@
    }
}

/// The kinds of icons among which an icon is looked for, in order.
pub open spec fn category_at(which: int) -> Seq<char> {
    if which == 0 {
        "apps"@
    } else if which == 1 {
        "applications"@
    } else {
        "mimetypes"@
    }
}

/// The endings of image files, in the order in which they are tried.
pub open spec fn extension_at(which: int) -> Seq<char> {
    if which == 0 {
        "svg"@
    } else if which == 1 {
        "png"@
    } else {
        "xpm"@
    }
}

/// The search paths that hold a word in their name, in order.
pub open spec fn holding(paths: Seq<String>, word: Seq<char>) -> Seq<Seq<char>>
    decreases paths.len(),
{
    if paths.len() == 0 {
        Seq::empty()
    } else if contains_text(paths.last()@, word) {
        holding(paths.drop_last(), word).push(paths.last()@)
    } else {
        holding(paths.drop_last(), word)
    }
}

/// The directories of a theme below the given bases: for each base, for each
/// size, for each kind of icon.
pub open spec fn theme_dirs(bases: Seq<Seq<char>>, theme: Seq<char>, size: Seq<char>) -> Seq<
    Seq<char>,
> {
    Seq::new(
        bases.len() * 6,
        |k: int|
            joined(
                joined(joined(bases[k / 6], theme), size_dir(size_at(size, (k % 6) / 3))),
                category_at(k % 3),
            ),
    )
}

/// The image files of an icon in the given directories: for each directory,
/// for each ending.
pub open spec fn files_in(dirs: Seq<Seq<char>>, icon_name: Seq<char>) -> Seq<Seq<char>> {
    Seq::new(
        dirs.len() * 3,
        |k: int| joined(dirs[k / 3], icon_name + "."@ + extension_at(k % 3)),
    )
}

/// Every file that may be the image of an icon, in the order in which the
/// files are tried.
pub open spec fn icon_candidates(
    icon_name: Seq<char>,
    size: Seq<char>,
    theme: Seq<char>,
    search_path: Seq<String>,
) -> Seq<Seq<char>> {
    let themed = holding(search_path, "icons"@);
    files_in(holding(search_path, "pixmap"@), icon_name) + files_in(
        theme_dirs(themed, theme, size) + theme_dirs(themed, fallback_theme(), size),
        icon_name,
    )
}

/// The texts of a list.
pub open spec fn texts(list: Seq<String>) -> Seq<Seq<char>> {
    Seq::new(list.len(), |i: int| list[i]@)
}

/// The key under which the image of an icon at a size is remembered.
pub fn icon_cache_key(icon_name: &str, size: &str) -> (key: String)
    ensures
        key@ == "icon:"@ + icon_name@ + ":"@ + size@,
{
    String::from_str("icon:").concat(icon_name).concat(":").concat(size)
}

/// The search paths that hold a word in their name, in order.
fn paths_holding(paths: &Vec<String>, word: &str) -> (found: Vec<String>)
    ensures
        texts(found@) == holding(paths@, word@),
{
    let wanted = chars_of(word);
    let mut found: Vec<String> = Vec::new();
    let mut i: usize = 0;
    proof {
        assert(texts(found@) =~= holding(paths@.take(0), word@));
    }
    while i < paths.len()
        invariant
            0 <= i <= paths@.len(),
            wanted@ == word@,
            texts(found@) == holding(paths@.take(i as int), word@),
        decreases paths@.len() - i,
    {
        let ghost before = texts(found@);
        proof {
            let seen = paths@.take(i + 1);
            assert(seen.drop_last() == paths@.take(i as int));
            assert(seen.last() == paths@[i as int]);
        }
        if contains(&chars_of(paths[i].as_str()), &wanted) {
            found.push(paths[i].clone());
            proof {
                assert(texts(found@) =~= before.push(paths@[i as int]@));
            }
        }
        i = i + 1;
    }
    proof {
        assert(paths@.take(i as int) == paths@);
    }
    found
}

/// The name of the directory of a size in a theme.
fn size_dir_name(size: &str) -> (name: String)
    ensures
        name@ == size_dir(size@),
{
    if same_text(size, "scalable") {
        size.to_owned()
    } else {
        String::from_str(size).concat("x").concat(size)
    }
}

/// The directories of a theme below the given bases, behind those that are
/// collected already.
fn add_theme_dirs(dirs: &mut Vec<String>, bases: &Vec<String>, theme: &str, size: &str)
    ensures
        texts(final(dirs)@) == texts(old(dirs)@) + theme_dirs(texts(bases@), theme@, size@),
{
    let ghost start = texts(dirs@);
    let ghost wanted = theme_dirs(texts(bases@), theme@, size@);
    let sized = size_dir_name(size);
    let scalable = size_dir_name("scalable");
    let mut b: usize = 0;
    proof {
        assert(texts(dirs@) =~= start + wanted.take(0));
    }
    while b < bases.len()
        invariant
            0 <= b <= bases@.len(),
            wanted == theme_dirs(texts(bases@), theme@, size@),
            sized@ == size_dir(size@),
            scalable@ == size_dir("scalable"@),
            texts(dirs@) == start + wanted.take(b * 6),
        decreases bases@.len() - b,
    {
        let in_theme = join_path(bases[b].as_str(), theme);
        let mut s: usize = 0;
        while s < 2
            invariant
                0 <= s <= 2,
                0 <= b < bases@.len(),
                    wanted == theme_dirs(texts(bases@), theme@, size@),
                sized@ == size_dir(size@),
                scalable@ == size_dir("scalable"@),
                in_theme@ == joined(bases@[b as int]@, theme@),
                texts(dirs@) == start + wanted.take(b * 6 + s * 3),
            decreases 2 - s,
        {
            let in_size = if s == 0 {
                join_path(in_theme.as_str(), sized.as_str())
            } else {
                join_path(in_theme.as_str(), scalable.as_str())
            };
            let ghost held = texts(dirs@);
            dirs.push(join_path(in_size.as_str(), "apps"));
            dirs.push(join_path(in_size.as_str(), "applications"));
            dirs.push(join_path(in_size.as_str(), "mimetypes"));
            proof {
                let k = b * 6 + s * 3;
                assert(texts(bases@)[b as int] == bases@[b as int]@);
                assert(k / 6 == b && (k + 1) / 6 == b && (k + 2) / 6 == b);
                assert((k % 6) / 3 == s && ((k + 1) % 6) / 3 == s && ((k + 2) % 6) / 3 == s);
                assert(k % 3 == 0 && (k + 1) % 3 == 1 && (k + 2) % 3 == 2);
                assert(wanted[k as int] == dirs@[dirs@.len() - 3]@);
                assert(wanted[k + 1] == dirs@[dirs@.len() - 2]@);
                assert(wanted[k + 2] == dirs@[dirs@.len() - 1]@);
                assert(texts(dirs@) =~= held.push(wanted[k as int]).push(wanted[k + 1]).push(
                    wanted[k + 2],
                ));
                assert(wanted.take(k + 3) =~= wanted.take(k as int).push(wanted[k as int]).push(
                    wanted[k + 1],
                ).push(wanted[k + 2]));
                assert(texts(dirs@) =~= start + wanted.take(k + 3));
            }
            s = s + 1;
        }
        b = b + 1;
    }
    proof {
        assert(wanted.take(b * 6) =~= wanted);
    }
}

/// The image files of an icon in the given directories, behind those that
/// are collected already.
fn add_files(files: &mut Vec<String>, dirs: &Vec<String>, icon_name: &str)
    ensures
        texts(final(files)@) == texts(old(files)@) + files_in(texts(dirs@), icon_name@),
{
    let ghost start = texts(files@);
    let ghost wanted = files_in(texts(dirs@), icon_name@);
    let svg = String::from_str(icon_name).concat(".").concat("svg");
    let png = String::from_str(icon_name).concat(".").concat("png");
    let xpm = String::from_str(icon_name).concat(".").concat("xpm");
    let mut d: usize = 0;
    proof {
        assert(texts(files@) =~= start + wanted.take(0));
    }
    while d < dirs.len()
        invariant
            0 <= d <= dirs@.len(),
            wanted == files_in(texts(dirs@), icon_name@),
            svg@ == icon_name@ + "."@ + "svg"@,
            png@ == icon_name@ + "."@ + "png"@,
            xpm@ == icon_name@ + "."@ + "xpm"@,
            texts(files@) == start + wanted.take(d * 3),
        decreases dirs@.len() - d,
    {
        let ghost held = texts(files@);
        files.push(join_path(dirs[d].as_str(), svg.as_str()));
        files.push(join_path(dirs[d].as_str(), png.as_str()));
        files.push(join_path(dirs[d].as_str(), xpm.as_str()));
        proof {
            let k = d * 3;
            assert(texts(dirs@)[d as int] == dirs@[d as int]@);
            assert(k / 3 == d && (k + 1) / 3 == d && (k + 2) / 3 == d);
            assert(k % 3 == 0 && (k + 1) % 3 == 1 && (k + 2) % 3 == 2);
            assert(wanted[k as int] == files@[files@.len() - 3]@);
            assert(wanted[k + 1] == files@[files@.len() - 2]@);
            assert(wanted[k + 2] == files@[files@.len() - 1]@);
            assert(texts(files@) =~= held.push(wanted[k as int]).push(wanted[k + 1]).push(
                wanted[k + 2],
            ));
            assert(wanted.take(k + 3) =~= wanted.take(k as int).push(wanted[k as int]).push(
                wanted[k + 1],
            ).push(wanted[k + 2]));
            assert(texts(files@) =~= start + wanted.take(k + 3));
        }
        d = d + 1;
    }
    proof {
        assert(wanted.take(d * 3) =~= wanted);
    }
}

/// Every file that may be the image of an icon, in the order in which the
/// files are tried.
pub fn candidate_files(icon_name: &str, size: &str, theme: &str, search_path: &Vec<String>) -> (files:
    Vec<String>)
    ensures
        texts(files@) == icon_candidates(icon_name@, size@, theme@, search_path@),
{
    let pixmaps = paths_holding(search_path, "pixmap");
    let themed = paths_holding(search_path, "icons");
    let mut dirs: Vec<String> = Vec::new();
    add_theme_dirs(&mut dirs, &themed, theme, size);
    add_theme_dirs(&mut dirs, &themed, "hicolor", size);
    let mut files: Vec<String> = Vec::new();
    add_files(&mut files, &pixmaps, icon_name);
    add_files(&mut files, &dirs, icon_name);
    proof {
        let t = holding(search_path@, "icons"@);
        assert(texts(dirs@) =~= theme_dirs(t, theme@, size@) + theme_dirs(
            t,
            fallback_theme(),
            size@,
        ));
        assert(texts(files@) =~= icon_candidates(icon_name@, size@, theme@, search_path@));
    }
    files
}

/// Whether `is_there`, asked for a file, gave this answer.
pub open spec fn said<E: Fn(&str) -> bool>(is_there: E, file: Seq<char>, answer: bool) -> bool {
    exists|path: &str| path@ == file && is_there.ensures((path,), answer)
}

/// Whether the candidate at a position is the first that is there: asked
/// for it, `is_there` said yes, and it said no for each one before.
pub open spec fn first_there<E: Fn(&str) -> bool>(
    is_there: E,
    candidates: Seq<Seq<char>>,
    at: int,
) -> bool {
    &&& 0 <= at < candidates.len()
    &&& said(is_there, candidates[at], true)
    &&& forall|j: int| 0 <= j < at ==> said(is_there, #[trigger] candidates[j], false)
}

/// The image of an icon: the first of the candidate files that is there, as
/// `is_there` tells it. The files are asked for in order, and none after the
/// first that is there.
pub fn find_icon_file<E: Fn(&str) -> bool>(
    icon_name: &str,
    size: &str,
    theme: &str,
    search_path: &Vec<String>,
    is_there: E,
) -> (found: Option<String>)
    requires
        forall|path: &str| is_there.requires((path,)),
    ensures
        ({
            let candidates = icon_candidates(icon_name@, size@, theme@, search_path@);
            match found {
                Some(file) => exists|at: int| #[trigger]
                    first_there(is_there, candidates, at) && candidates[at] == file@,
                None => forall|j: int|
                    0 <= j < candidates.len() ==> said(is_there, #[trigger] candidates[j], false),
            }
        }),
{
    let files = candidate_files(icon_name, size, theme, search_path);
    let ghost candidates = icon_candidates(icon_name@, size@, theme@, search_path@);
    let mut i: usize = 0;
    while i < files.len()
        invariant
            0 <= i <= files@.len(),
            forall|path: &str| is_there.requires((path,)),
            candidates == icon_candidates(icon_name@, size@, theme@, search_path@),
            texts(files@) == candidates,
            forall|j: int| 0 <= j < i ==> said(is_there, #[trigger] candidates[j], false),
        decreases files@.len() - i,
    {
        let asked = files[i].as_str();
        let there = is_there(asked);
        proof {
            assert(texts(files@)[i as int] == files@[i as int]@);
            assert(asked@ == candidates[i as int] && is_there.ensures((asked,), there));
        }
        if there {
            let file = files[i].clone();
            proof {
                assert(first_there(is_there, candidates, i as int));
            }
            return Some(file);
        }
        i = i + 1;
    }
    None
}

} // verus!
