//! Windows paths as the operating system reads them: the prefix (`C:`, `\\server\share`,
//! `\\?\...`, `\\.\...`), the root, and the components after them.

use vstd::prelude::*;
use crate::text::chars_of;

verus! {

/// A path separator on Windows.
pub open spec fn is_separator(c: char) -> bool {
    c == '\\' || c == '/'
}

/// A separator between components: after a verbatim prefix only `\` is one.
pub open spec fn is_path_separator(c: char, verbatim: bool) -> bool {
    if verbatim {
        c == '\\'
    } else {
        is_separator(c)
    }
}

/// An ASCII letter, as a drive letter must be.
pub open spec fn is_drive_letter(c: char) -> bool {
    (65 <= (c as u32) && (c as u32) <= 90) || (97 <= (c as u32) && (c as u32) <= 122)
}

/// `p` begins with a drive prefix such as `C:`.
pub open spec fn has_drive_prefix(p: Seq<char>) -> bool {
    p.len() >= 2 && p[1] == ':' && is_drive_letter(p[0])
}

/// A character as the prefix is matched: `/` counts as `\`.
pub open spec fn prefix_char(c: char) -> char {
    if c == '/' {
        '\\'
    } else {
        c
    }
}

/// `pat` stands in `p` at `i`, each `/` of `p` read as `\`.
pub open spec fn prefix_at(p: Seq<char>, i: int, pat: Seq<char>) -> bool {
    0 <= i && i + pat.len() <= p.len() && forall|k: int| 0 <= k < pat.len() ==> prefix_char(#[trigger] p[i + k]) == pat[k]
}

/// Where the component that starts at `i` ends: at the next separator (only `\` when
/// `verbatim`), or at the end of `p`.
pub open spec fn next_separator(p: Seq<char>, i: int, verbatim: bool) -> int
    decreases p.len() - i,
{
    if i < 0 || i >= p.len() {
        p.len() as int
    } else if is_path_separator(p[i], verbatim) {
        i
    } else {
        next_separator(p, i + 1, verbatim)
    }
}

/// The prefix of `p` as Windows parses it: its length, and whether it is verbatim; none when
/// `p` has none. In order: `\\?\UNC\server\share`, `\\?\C:`, `\\?\name` (verbatim, written
/// with `\` in the first four characters), `\\.\device`, `\\server\share` (both parts not
/// empty), and a drive `C:`. In the first eight characters `/` counts as `\`.
pub open spec fn path_prefix(p: Seq<char>) -> Option<(int, bool)> {
    if prefix_at(p, 0, seq!['\\', '\\']) {
        if prefix_at(p, 2, seq!['?', '\\']) && p[0] == '\\' && p[1] == '\\' && p[3] == '\\' {
            if prefix_at(p, 4, seq!['U', 'N', 'C', '\\']) {
                let server_end = next_separator(p, 8, true);
                if server_end < p.len() && next_separator(p, server_end + 1, true) > server_end + 1 {
                    Some((next_separator(p, server_end + 1, true), true))
                } else {
                    Some((server_end, true))
                }
            } else if p.len() >= 6 && is_drive_letter(p[4]) && p[5] == ':' && (p.len() == 6 || p[6] == '\\') {
                Some((6, true))
            } else {
                Some((next_separator(p, 4, true), true))
            }
        } else if prefix_at(p, 2, seq!['.', '\\']) {
            Some((next_separator(p, 4, false), false))
        } else {
            let server_end = next_separator(p, 2, false);
            if 2 < server_end < p.len() && next_separator(p, server_end + 1, false) > server_end + 1 {
                Some((next_separator(p, server_end + 1, false), false))
            } else {
                None
            }
        }
    } else if has_drive_prefix(p) {
        Some((2, false))
    } else {
        None
    }
}

/// Where the last component of `p` starts: just after its last separator.
pub open spec fn component_start(p: Seq<char>, verbatim: bool) -> nat
    decreases p.len(),
{
    if p.len() == 0 {
        0
    } else if is_path_separator(p.last(), verbatim) {
        p.len()
    } else {
        component_start(p.drop_last(), verbatim)
    }
}

/// The last component of the body of a path, if it is a name: trailing separators are skipped;
/// a `.` component is skipped too, except after a verbatim prefix, where it counts as the
/// current directory; `..`, the current directory or no component at all give none.
pub open spec fn final_component(p: Seq<char>, verbatim: bool) -> Option<Seq<char>>
    decreases p.len(),
{
    if p.len() == 0 {
        None
    } else if is_path_separator(p.last(), verbatim) {
        final_component(p.drop_last(), verbatim)
    } else {
        let start = component_start(p, verbatim);
        proof {
            lemma_component_start_bound(p, verbatim);
        }
        let comp = p.subrange(start as int, p.len() as int);
        if comp == seq!['.', '.'] {
            None
        } else if comp == seq!['.'] {
            if verbatim {
                None
            } else {
                final_component(p.subrange(0, start as int), verbatim)
            }
        } else {
            Some(comp)
        }
    }
}

/// The file name of a Windows path: the last component after the prefix and the root, when it
/// is a name. After a verbatim prefix one leading separator is the root, and only `\`
/// separates the components that follow.
pub open spec fn file_name(p: Seq<char>) -> Option<Seq<char>> {
    match path_prefix(p) {
        Some((n, verbatim)) => {
            let rest = p.subrange(n, p.len() as int);
            if verbatim && rest.len() > 0 && is_separator(rest[0]) {
                final_component(rest.subrange(1, rest.len() as int), true)
            } else {
                final_component(rest, verbatim)
            }
        },
        None => final_component(p, false),
    }
}

/// The last component starts within the path, right after a separator (or at its start), and
/// holds no separator.
pub proof fn lemma_component_start_bound(p: Seq<char>, verbatim: bool)
    ensures
        component_start(p, verbatim) <= p.len(),
        forall|k: int| component_start(p, verbatim) <= k < p.len() ==> !is_path_separator(#[trigger] p[k], verbatim),
        component_start(p, verbatim) > 0 ==> is_path_separator(p[component_start(p, verbatim) - 1], verbatim),
    decreases p.len(),
{
    if p.len() > 0 && !is_path_separator(p.last(), verbatim) {
        lemma_component_start_bound(p.drop_last(), verbatim);
        assert forall|k: int| component_start(p, verbatim) <= k < p.len() implies !is_path_separator(
            #[trigger] p[k],
            verbatim,
        ) by {
            if k < p.len() - 1 {
                assert(p.drop_last()[k] == p[k]);
            }
        }
        if component_start(p, verbatim) > 0 {
            assert(p.drop_last()[component_start(p, verbatim) - 1] == p[component_start(p, verbatim) - 1]);
        }
    }
}

/// The end of a component lies between its start and the end of the path.
pub proof fn lemma_next_separator_bound(p: Seq<char>, i: int, verbatim: bool)
    requires
        0 <= i,
    ensures
        next_separator(p, i, verbatim) <= p.len(),
        i <= p.len() ==> i <= next_separator(p, i, verbatim),
    decreases p.len() - i,
{
    if i < p.len() && !is_path_separator(p[i], verbatim) {
        lemma_next_separator_bound(p, i + 1, verbatim);
    }
}

fn is_path_separator_exec(c: char, verbatim: bool) -> (r: bool)
    ensures
        r == is_path_separator(c, verbatim),
{
    c == '\\' || (!verbatim && c == '/')
}

fn is_drive_letter_exec(c: char) -> (r: bool)
    ensures
        r == is_drive_letter(c),
{
    let u: u32 = c as u32;
    (65 <= u && u <= 90) || (97 <= u && u <= 122)
}

fn next_separator_exec(p: &Vec<char>, i: usize, verbatim: bool) -> (r: usize)
    requires
        i <= p@.len(),
    ensures
        r == next_separator(p@, i as int, verbatim),
        i <= r <= p@.len(),
    decreases p@.len() - i,
{
    if i >= p.len() {
        return p.len();
    }
    if is_path_separator_exec(p[i], verbatim) {
        i
    } else {
        next_separator_exec(p, i + 1, verbatim)
    }
}

/// Whether the two characters `a`, `b` stand at `i`, each `/` read as `\`.
fn prefix_at_2(p: &Vec<char>, i: usize, a: char, b: char) -> (r: bool)
    ensures
        r == prefix_at(p@, i as int, seq![a, b]),
{
    let ghost pat = seq![a, b];
    if i > p.len() || p.len() - i < 2 {
        return false;
    }
    let x = if p[i] == '/' { '\\' } else { p[i] };
    let y = if p[i + 1] == '/' { '\\' } else { p[i + 1] };
    let r = x == a && y == b;
    proof {
        assert(prefix_char(p@[i as int + 0]) == x);
        assert(prefix_char(p@[i as int + 1]) == y);
        if r {
            assert forall|k: int| 0 <= k < pat.len() implies prefix_char(#[trigger] p@[i as int + k]) == pat[k] by {
                if k == 0 {
                } else {
                    assert(k == 1);
                }
            }
        }
    }
    r
}

/// Whether `UNC\` stands at `i`, each `/` read as `\`.
fn unc_at(p: &Vec<char>, i: usize) -> (r: bool)
    ensures
        r == prefix_at(p@, i as int, seq!['U', 'N', 'C', '\\']),
{
    let ghost pat = seq!['U', 'N', 'C', '\\'];
    if i > p.len() || p.len() - i < 4 {
        return false;
    }
    let r = p[i] == 'U' && p[i + 1] == 'N' && p[i + 2] == 'C' && (p[i + 3] == '\\' || p[i + 3] == '/');
    proof {
        assert(prefix_char(p@[i as int + 0]) == pat[0] <==> p@[i as int] == 'U');
        assert(prefix_char(p@[i as int + 1]) == pat[1] <==> p@[i + 1] == 'N');
        assert(prefix_char(p@[i as int + 2]) == pat[2] <==> p@[i + 2] == 'C');
        assert(prefix_char(p@[i as int + 3]) == pat[3] <==> (p@[i + 3] == '\\' || p@[i + 3] == '/'));
        if r {
            assert forall|k: int| 0 <= k < pat.len() implies prefix_char(#[trigger] p@[i as int + k]) == pat[k] by {
                assert(k == 0 || k == 1 || k == 2 || k == 3);
            }
        }
    }
    r
}

/// The prefix of `p` as Windows parses it.
pub fn path_prefix_exec(p: &Vec<char>) -> (r: Option<(usize, bool)>)
    ensures
        match r {
            Some((n, v)) => path_prefix(p@) == Some((n as int, v)) && n <= p@.len(),
            None => path_prefix(p@) is None,
        },
{
    let len = p.len();
    if prefix_at_2(p, 0, '\\', '\\') {
        if prefix_at_2(p, 2, '?', '\\') && p[0] == '\\' && p[1] == '\\' && p[3] == '\\' {
            if unc_at(p, 4) {
                let server_end = next_separator_exec(p, 8, true);
                if server_end < len {
                    let share_end = next_separator_exec(p, server_end + 1, true);
                    if share_end > server_end + 1 {
                        return Some((share_end, true));
                    }
                }
                Some((server_end, true))
            } else if len >= 6 && is_drive_letter_exec(p[4]) && p[5] == ':' && (len == 6 || p[6] == '\\') {
                Some((6, true))
            } else {
                Some((next_separator_exec(p, 4, true), true))
            }
        } else if prefix_at_2(p, 2, '.', '\\') {
            Some((next_separator_exec(p, 4, false), false))
        } else {
            let server_end = next_separator_exec(p, 2, false);
            if 2 < server_end && server_end < len {
                let share_end = next_separator_exec(p, server_end + 1, false);
                if share_end > server_end + 1 {
                    return Some((share_end, false));
                }
            }
            None
        }
    } else if len >= 2 && p[1] == ':' && is_drive_letter_exec(p[0]) {
        Some((2, false))
    } else {
        None
    }
}

fn component_start_exec(p: &Vec<char>, end: usize, verbatim: bool) -> (s: usize)
    requires
        end <= p@.len(),
    ensures
        s == component_start(p@.take(end as int), verbatim),
    decreases end,
{
    if end == 0 {
        return 0;
    }
    let c = p[end - 1];
    assert(p@.take(end as int).drop_last() == p@.take(end - 1));
    if is_path_separator_exec(c, verbatim) {
        end
    } else {
        component_start_exec(p, end - 1, verbatim)
    }
}

/// The range of the final component of `p@.take(end)`.
fn final_component_range(p: &Vec<char>, end: usize, verbatim: bool) -> (r: Option<(usize, usize)>)
    requires
        end <= p@.len(),
    ensures
        match r {
            Some((a, b)) => a <= b <= end && final_component(p@.take(end as int), verbatim) == Some(
                p@.subrange(a as int, b as int),
            ),
            None => final_component(p@.take(end as int), verbatim) is None,
        },
    decreases end,
{
    if end == 0 {
        return None;
    }
    let ghost q = p@.take(end as int);
    let c = p[end - 1];
    assert(q.drop_last() == p@.take(end - 1));
    if is_path_separator_exec(c, verbatim) {
        return final_component_range(p, end - 1, verbatim);
    }
    let start = component_start_exec(p, end, verbatim);
    proof {
        lemma_component_start_bound(q, verbatim);
    }
    let len = end - start;
    assert(q.subrange(start as int, end as int) == p@.subrange(start as int, end as int));
    if len == 2 && p[start] == '.' && p[start + 1] == '.' {
        assert(p@.subrange(start as int, end as int) =~= seq!['.', '.']);
        return None;
    }
    if len == 1 && p[start] == '.' {
        assert(p@.subrange(start as int, end as int) =~= seq!['.']);
        if verbatim {
            return None;
        }
        assert(q.subrange(0, start as int) == p@.take(start as int));
        return final_component_range(p, start, verbatim);
    }
    proof {
        if p@.subrange(start as int, end as int) == seq!['.', '.'] {
            assert(p@.subrange(start as int, end as int)[0] == p@[start as int]);
            assert(p@.subrange(start as int, end as int)[1] == p@[start + 1]);
        }
        if p@.subrange(start as int, end as int) == seq!['.'] {
            assert(p@.subrange(start as int, end as int)[0] == p@[start as int]);
        }
    }
    Some((start, end))
}

fn copy_range(p: &Vec<char>, a: usize, b: usize) -> (v: Vec<char>)
    requires
        a <= b <= p@.len(),
    ensures
        v@ == p@.subrange(a as int, b as int),
{
    let mut v: Vec<char> = Vec::new();
    let mut i: usize = a;
    while i < b
        invariant
            a <= i <= b,
            b <= p@.len(),
            v@ == p@.subrange(a as int, i as int),
        decreases b - i,
    {
        v.push(p[i]);
        i = i + 1;
        assert(v@ == p@.subrange(a as int, i as int));
    }
    v
}

/// The file name of a Windows path, if it has one.
pub fn path_file_name(path: &str) -> (r: Option<Vec<char>>)
    ensures
        match r {
            Some(n) => file_name(path@) == Some(n@),
            None => file_name(path@) is None,
        },
{
    let p = chars_of(path);
    let n = p.len();
    let (start, verbatim) = match path_prefix_exec(&p) {
        Some((k, v)) => {
            if v && k < n && (p[k] == '\\' || p[k] == '/') {
                (k + 1, v)
            } else {
                (k, v)
            }
        },
        None => (0, false),
    };
    let v = copy_range(&p, start, n);
    proof {
        assert(v@.take(v@.len() as int) == v@);
        match path_prefix(p@) {
            Some((k, vb)) => {
                let rest = p@.subrange(k, p@.len() as int);
                if vb && rest.len() > 0 && is_separator(rest[0]) {
                    assert(rest.subrange(1, rest.len() as int) == v@);
                } else {
                    assert(rest == v@);
                }
            },
            None => {
                assert(p@.subrange(0, p@.len() as int) == p@);
            },
        }
    }
    match final_component_range(&v, v.len(), verbatim) {
        Some((a, b)) => Some(copy_range(&v, a, b)),
        None => None,
    }
}

} // verus!
