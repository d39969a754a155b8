//! Decisions about Python environments on plain values: which candidate
//! interpreter versions have a usable virtual environment, where a venv
//! keeps its executables, and which entries of a bin directory are console
//! scripts. The filesystem probing itself is the caller's concern; these
//! functions take its findings as values.

use crate::version::Version;
use vstd::prelude::*;
use vstd::string::StringExecFns;

verus! {

/// The interpreter versions a project directory may hold an environment
/// for.
pub open spec fn spec_py_candidates() -> Seq<(u32, u32)> {
    seq![
        (2u32, 6u32),
        (2u32, 7u32),
        (2u32, 8u32),
        (2u32, 9u32),
        (3u32, 0u32),
        (3u32, 1u32),
        (3u32, 2u32),
        (3u32, 3u32),
        (3u32, 4u32),
        (3u32, 5u32),
        (3u32, 6u32),
        (3u32, 7u32),
        (3u32, 8u32),
        (3u32, 9u32),
        (3u32, 10u32),
        (3u32, 11u32),
        (3u32, 12u32),
    ]
}

/// The candidate interpreter versions, oldest first.
pub fn py_version_candidates() -> (r: Vec<(u32, u32)>)
    ensures
        r@ == spec_py_candidates(),
{
    let mut r: Vec<(u32, u32)> = Vec::new();
    r.push((2, 6));
    r.push((2, 7));
    r.push((2, 8));
    r.push((2, 9));
    r.push((3, 0));
    r.push((3, 1));
    r.push((3, 2));
    r.push((3, 3));
    r.push((3, 4));
    r.push((3, 5));
    r.push((3, 6));
    r.push((3, 7));
    r.push((3, 8));
    r.push((3, 9));
    r.push((3, 10));
    r.push((3, 11));
    r.push((3, 12));
    proof {
        assert(r@ =~= spec_py_candidates());
    }
    r
}

/// The candidate versions selected by a row of findings.
pub open spec fn selected_venvs(present: Seq<bool>) -> Seq<(u32, u32)>
    decreases present.len(),
{
    if present.len() == 0 || present.len() > spec_py_candidates().len() {
        Seq::<(u32, u32)>::empty()
    } else {
        selected_venvs(present.drop_last()) + (if present.last() {
            seq![spec_py_candidates()[present.len() - 1]]
        } else {
            Seq::<(u32, u32)>::empty()
        })
    }
}

/// Which virtual environments exist: `present[i]` reports whether the
/// candidate version `py_version_candidates()[i]` has a usable environment
/// (its interpreter and package installer both in place), as probed by the
/// caller.
pub fn find_venvs(present: &[bool]) -> (r: Vec<(u32, u32)>)
    requires
        present@.len() == spec_py_candidates().len(),
    ensures
        r@ == selected_venvs(present@),
{
    let candidates = py_version_candidates();
    let n = present.len();
    let mut r: Vec<(u32, u32)> = Vec::new();
    let mut i: usize = 0;
    while i < n
        invariant
            0 <= i <= n,
            n == present@.len(),
            n == spec_py_candidates().len(),
            candidates@ == spec_py_candidates(),
            r@ == selected_venvs(present@.subrange(0, i as int)),
        decreases n - i,
    {
        proof {
            let pre = present@.subrange(0, i as int);
            let cur = present@.subrange(0, i + 1);
            assert(cur.drop_last() =~= pre);
            assert(cur.last() == present@[i as int]);
        }
        if present[i] {
            r.push(candidates[i]);
        }
        proof {
            assert(r@ =~= selected_venvs(present@.subrange(0, i + 1)));
        }
        i += 1;
    }
    proof {
        assert(present@.subrange(0, n as int) =~= present@);
    }
    r
}

/// Where a version directory keeps its venv executables: under
/// `.venv/Scripts` on Windows, `.venv/bin` elsewhere.
pub fn find_bin_path(vers_path: &str, windows: bool) -> (r: String)
    ensures
        windows ==> r@ == vers_path@ + "/.venv/Scripts"@,
        !windows ==> r@ == vers_path@ + "/.venv/bin"@,
{
    let mut out = vers_path.to_owned();
    if windows {
        out.append("/.venv/Scripts");
    } else {
        out.append("/.venv/bin");
    }
    out
}

/// Whether a line opens a section of an entry-points file.
pub open spec fn is_section_header(line: Seq<char>) -> bool {
    line.len() > 0 && line[0] == '['
}

/// The console-scripts section header.
pub open spec fn console_scripts_header() -> Seq<char> {
    seq![
        '[',
        'c',
        'o',
        'n',
        's',
        'o',
        'l',
        'e',
        '_',
        's',
        'c',
        'r',
        'i',
        'p',
        't',
        's',
        ']',
    ]
}

/// The non-empty lines of the `[console_scripts]` section: everything from
/// the line after its header up to the next section header or the end.
pub open spec fn scripts_in_section(lines: Seq<Seq<char>>, i: int, in_section: bool) -> Seq<
    Seq<char>,
>
    decreases lines.len() - i,
{
    if i < 0 || i >= lines.len() {
        Seq::<Seq<char>>::empty()
    } else if lines[i] == console_scripts_header() {
        scripts_in_section(lines, i + 1, true)
    } else if is_section_header(lines[i]) {
        Seq::<Seq<char>>::empty()
    } else if in_section && lines[i].len() > 0 {
        seq![lines[i]] + scripts_in_section(lines, i + 1, true)
    } else {
        scripts_in_section(lines, i + 1, in_section)
    }
}

/// Picks the console-script entries out of an entry-points file's lines:
/// the non-empty lines between the `[console_scripts]` header and the next
/// section.
pub fn console_scripts_from_lines(lines: &Vec<String>) -> (r: Vec<String>)
    ensures
        r@.map_values(|s: String| s@) == scripts_in_section(
            lines@.map_values(|s: String| s@),
            0,
            false,
        ),
{
    let ghost lv = lines@.map_values(|s: String| s@);
    let n = lines.len();
    let mut out: Vec<String> = Vec::new();
    let mut in_section = false;
    let mut done = false;
    let mut i: usize = 0;
    while i < n && !done
        invariant
            0 <= i <= n,
            n == lines@.len(),
            lv == lines@.map_values(|s: String| s@),
            done ==> out@.map_values(|s: String| s@) == scripts_in_section(lv, 0, false),
            !done ==> out@.map_values(|s: String| s@) + scripts_in_section(lv, i as int, in_section)
                == scripts_in_section(lv, 0, false),
        decreases n - i,
    {
        let line = &lines[i];
        let t = crate::text::str_to_chars(line.as_str());
        let tn = t.len();
        let is_header = tn == 17 && t[0] == '[' && t[1] == 'c' && t[2] == 'o' && t[3] == 'n'
            && t[4] == 's' && t[5] == 'o' && t[6] == 'l' && t[7] == 'e' && t[8] == '_' && t[9]
            == 's' && t[10] == 'c' && t[11] == 'r' && t[12] == 'i' && t[13] == 'p' && t[14] == 't'
            && t[15] == 's' && t[16] == ']';
        proof {
            if is_header {
                assert(lv[i as int] =~= console_scripts_header());
            } else {
                assert(lv[i as int] != console_scripts_header());
            }
        }
        if is_header {
            in_section = true;
        } else if tn > 0 && t[0] == '[' {
            // A later section: nothing after it belongs to the scripts.
            proof {
                assert(scripts_in_section(lv, i as int, in_section) =~= Seq::<Seq<char>>::empty());
            }
            proof {
                assert(out@.map_values(|s: String| s@) + Seq::<Seq<char>>::empty()
                    =~= out@.map_values(|s: String| s@));
            }
            done = true;
        } else if in_section && tn > 0 {
            let ghost out0 = out@.map_values(|s: String| s@);
            out.push(line.clone());
            proof {
                assert(out@.map_values(|s: String| s@) =~= out0 + seq![lv[i as int]]);
                assert((out0 + seq![lv[i as int]]) + scripts_in_section(lv, i + 1, true) =~= out0
                    + (seq![lv[i as int]] + scripts_in_section(lv, i + 1, true)));
            }
        }
        i += 1;
    }
    proof {
        if !done {
            assert(scripts_in_section(lv, i as int, in_section) =~= Seq::<Seq<char>>::empty());
            assert(out@.map_values(|s: String| s@) + Seq::<Seq<char>>::empty() =~= out@.map_values(
                |s: String| s@,
            ));
        }
    }
    out
}

/// Position of the first dash, or `-1` when there is none.
pub open spec fn first_dash(s: Seq<char>, i: int) -> int
    decreases s.len() - i,
{
    if i < 0 || i >= s.len() {
        -1
    } else if s[i] == '-' {
        i
    } else {
        first_dash(s, i + 1)
    }
}

fn first_dash_exec(t: &Vec<char>, i: usize) -> (r: Option<usize>)
    requires
        i <= t@.len(),
    ensures
        match r {
            Some(j) => first_dash(t@, i as int) == j as int && i <= j < t@.len(),
            None => first_dash(t@, i as int) == -1,
        },
    decreases t@.len() - i,
{
    if i >= t.len() {
        None
    } else if t[i] == '-' {
        Some(i)
    } else {
        first_dash_exec(t, i + 1)
    }
}

/// The metadata-folder suffix of an installed package.
pub open spec fn dist_info_suffix() -> Seq<char> {
    seq!['.', 'd', 'i', 's', 't', '-', 'i', 'n', 'f', 'o']
}

/// How an installed package's metadata folder splits: `name-version` up to
/// the `.dist-info` suffix, the name being everything before the first
/// dash.
pub open spec fn spec_dist_info(s: Seq<char>) -> Option<(Seq<char>, Seq<char>)> {
    if s.len() >= 10 && s.subrange(s.len() - 10, s.len() as int) == dist_info_suffix() {
        let d = first_dash(s, 0);
        if 0 <= d && d + 1 <= s.len() - 10 {
            Some((s.subrange(0, d), s.subrange(d + 1, s.len() - 10)))
        } else {
            None
        }
    } else {
        None
    }
}

/// Splits an installed package's metadata folder name, eg
/// `requests-2.22.0.dist-info`, into the package name and its version
/// text.
pub fn parse_dist_info_folder(folder: &str) -> (r: Option<(String, String)>)
    ensures
        r is Some <==> spec_dist_info(folder@) is Some,
        r matches Some((name, vers)) ==> spec_dist_info(folder@) == Some((name@, vers@)),
{
    let t = crate::text::str_to_chars(folder);
    let n = t.len();
    if n < 10 {
        return None;
    }
    let b = n - 10;
    let has_suffix = t[b] == '.' && t[b + 1] == 'd' && t[b + 2] == 'i' && t[b + 3] == 's' && t[b
        + 4] == 't' && t[b + 5] == '-' && t[b + 6] == 'i' && t[b + 7] == 'n' && t[b + 8] == 'f'
        && t[b + 9] == 'o';
    proof {
        if has_suffix {
            assert(t@.subrange(n - 10, n as int) =~= dist_info_suffix());
        } else {
            assert(t@.subrange(n - 10, n as int) != dist_info_suffix());
        }
    }
    if !has_suffix {
        return None;
    }
    match first_dash_exec(&t, 0) {
        Some(d) => {
            if d + 1 <= b {
                let name_chars = crate::text::sub_chars(&t, 0, d);
                let vers_chars = crate::text::sub_chars(&t, d + 1, b);
                Some(
                    (
                        crate::text::chars_to_string(&name_chars),
                        crate::text::chars_to_string(&vers_chars),
                    ),
                )
            } else {
                None
            }
        },
        None => None,
    }
}

/// The console scripts among a bin directory's entries: the names of the
/// plain files, in directory order. Each entry pairs a name with whether
/// it is a file, as probed by the caller.
pub open spec fn selected_scripts(entries: Seq<(String, bool)>) -> Seq<Seq<char>>
    decreases entries.len(),
{
    if entries.len() == 0 {
        Seq::<Seq<char>>::empty()
    } else {
        selected_scripts(entries.drop_last()) + (if entries.last().1 {
            seq![entries.last().0@]
        } else {
            Seq::<Seq<char>>::empty()
        })
    }
}

pub fn find_console_scripts(entries: &Vec<(String, bool)>) -> (r: Vec<String>)
    ensures
        r@.map_values(|s: String| s@) == selected_scripts(entries@),
{
    let n = entries.len();
    let mut r: Vec<String> = Vec::new();
    let mut i: usize = 0;
    while i < n
        invariant
            0 <= i <= n,
            n == entries@.len(),
            r@.map_values(|s: String| s@) == selected_scripts(entries@.subrange(0, i as int)),
        decreases n - i,
    {
        proof {
            let pre = entries@.subrange(0, i as int);
            let cur = entries@.subrange(0, i + 1);
            assert(cur.drop_last() =~= pre);
            assert(cur.last() == entries@[i as int]);
        }
        if entries[i].1 {
            let name = entries[i].0.clone();
            r.push(name);
        }
        proof {
            assert(r@.map_values(|s: String| s@) =~= selected_scripts(
                entries@.subrange(0, i + 1),
            ));
        }
        i += 1;
    }
    proof {
        assert(entries@.subrange(0, n as int) =~= entries@);
    }
    r
}

} // verus!
