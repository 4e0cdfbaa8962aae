//! Packaging a project for distribution: the archive's default name and
//! the files it holds (`mm.toml`, `mm.lock` and `media/`, never `output/`
//! or `cache/`).

use crate::cli::ascii_lower_char;
use crate::paths::{join_path, path_join};
use crate::render::string_views;
use crate::text::push_char;
use vstd::prelude::*;
use vstd::string::*;

verus! {

/// The characters a package name keeps: ASCII letters and digits.
pub open spec fn name_char(c: char) -> bool {
    ('a' <= c <= 'z') || ('A' <= c <= 'Z') || ('0' <= c <= '9')
}

/// The package name of `s`, read after the partial name `acc`; `gap` tells
/// that characters were dropped since the last kept one. Letters are
/// lowercased, and each run of other characters between kept ones becomes
/// one `-`.
pub open spec fn name_from(s: Seq<char>, acc: Seq<char>, gap: bool) -> Seq<char>
    decreases s.len(),
{
    if s.len() == 0 {
        acc
    } else if name_char(s[0]) {
        let sep = if gap && acc.len() > 0 {
            acc.push('-')
        } else {
            acc
        };
        name_from(s.skip(1), sep.push(ascii_lower_char(s[0])), false)
    } else {
        name_from(s.skip(1), acc, true)
    }
}

/// The name of a project's package: its title's letters and digits, or
/// `project` when it has none.
pub open spec fn package_name_spec(title: Seq<char>) -> Seq<char> {
    let n = name_from(title, Seq::empty(), false);
    if n.len() == 0 {
        "project"@
    } else {
        n
    }
}

/// The name of a project's package: its title's ASCII letters (lowercased)
/// and digits, runs of other characters between them turned into `-`, or
/// `project` when the title has none.
pub fn package_name(title: &str) -> (r: String)
    ensures
        r@ == package_name_spec(title@),
{
    let n = title.unicode_len();
    let mut out = String::new();
    let mut gap = false;
    let mut i: usize = 0;
    assert(title@.skip(0) =~= title@);
    while i < n
        invariant
            n == title@.len(),
            i <= n,
            name_from(title@, Seq::empty(), false) == name_from(title@.skip(i as int), out@, gap),
        decreases n - i,
    {
        let c = title.get_char(i);
        assert(title@.skip(i as int)[0] == c);
        assert(title@.skip(i as int).skip(1) =~= title@.skip(i + 1));
        if ('a' <= c && c <= 'z') || ('A' <= c && c <= 'Z') || ('0' <= c && c <= '9') {
            if gap && out.as_str().unicode_len() > 0 {
                push_char(&mut out, '-');
            }
            let lower = if 'A' <= c && c <= 'Z' {
                ((c as u32) + 32) as u8 as char
            } else {
                c
            };
            push_char(&mut out, lower);
            gap = false;
        } else {
            gap = true;
        }
        i = i + 1;
    }
    assert(title@.skip(i as int) =~= Seq::<char>::empty());
    if out.as_str().unicode_len() == 0 {
        String::from_str("project")
    } else {
        out
    }
}

/// Where a package is written when no output is given:
/// `output/<name>.tar.gz` under the project root.
pub open spec fn default_package_output_spec(project_root: Seq<char>, title: Seq<char>) -> Seq<char> {
    path_join(path_join(project_root, "output"@), package_name_spec(title) + ".tar.gz"@)
}

/// Where a package is written when no output is given.
pub fn default_package_output(project_root: &str, title: &str) -> (r: String)
    ensures
        r@ == default_package_output_spec(project_root@, title@),
{
    let dir = join_path(project_root, "output");
    let mut file = package_name(title);
    file.append(".tar.gz");
    join_path(dir.as_str(), file.as_str())
}

/// A project file (its path relative to the project root, with `/`
/// separators) that a package holds: `mm.toml`, `mm.lock`, or a file
/// under `media/`.
pub open spec fn packaged(relative: Seq<char>) -> bool {
    relative == "mm.toml"@ || relative == "mm.lock"@ || (relative.len() > 6 && relative.take(6) == "media/"@)
}

/// The files of `candidates` that a package holds, in order, leaving out
/// the archive itself (`archive`, when it lies inside the project).
pub open spec fn package_entries_spec(candidates: Seq<Seq<char>>, archive: Option<Seq<char>>) -> Seq<Seq<char>>
    decreases candidates.len(),
{
    if candidates.len() == 0 {
        Seq::empty()
    } else {
        let rest = package_entries_spec(candidates.drop_last(), archive);
        let c = candidates.last();
        if packaged(c) && archive != Some(c) {
            rest.push(c)
        } else {
            rest
        }
    }
}

fn is_packaged(relative: &str) -> (r: bool)
    ensures
        r == packaged(relative@),
{
    proof {
        reveal_strlit("media/");
    }
    let n = relative.unicode_len();
    let media = n > 6 && crate::text::occurs_at_exec(relative, n, "media/", 6, 0);
    proof {
        if n > 6 {
            assert(relative@.subrange(0, 6) =~= relative@.take(6));
        }
    }
    crate::lock::str_eq(relative, "mm.toml") || crate::lock::str_eq(relative, "mm.lock") || media
}

/// The files of `candidates` (paths relative to the project root, with `/`
/// separators) that a package holds, in order, without the archive itself.
pub fn package_entries(candidates: &[String], archive: Option<&str>) -> (r: Vec<String>)
    ensures
        string_views(r@) == package_entries_spec(
            string_views(candidates@),
            match archive {
                Some(a) => Some(a@),
                None => None,
            },
        ),
{
    let ghost views = string_views(candidates@);
    let ghost archive_view = match archive {
        Some(a) => Some(a@),
        None => None,
    };
    let mut out: Vec<String> = Vec::new();
    let mut i: usize = 0;
    assert(views.take(0) =~= Seq::<Seq<char>>::empty());
    while i < candidates.len()
        invariant
            i <= candidates@.len(),
            views == string_views(candidates@),
            archive_view == (match archive {
                Some(a) => Some(a@),
                None => None::<Seq<char>>,
            }),
            string_views(out@) == package_entries_spec(views.take(i as int), archive_view),
        decreases candidates.len() - i,
    {
        let candidate = &candidates[i];
        assert(views.take(i + 1).drop_last() =~= views.take(i as int));
        assert(views.take(i + 1).last() == candidate@);
        let is_archive = match archive {
            Some(a) => crate::lock::str_eq(candidate.as_str(), a),
            None => false,
        };
        if is_packaged(candidate.as_str()) && !is_archive {
            let ghost before = out@;
            out.push(candidate.clone());
            assert(string_views(out@) =~= string_views(before).push(candidate@));
        }
        i = i + 1;
    }
    assert(views.take(i as int) =~= views);
    out
}

} // verus!
