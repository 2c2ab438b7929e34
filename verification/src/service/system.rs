//! What the service reads from the system it runs on.
use crate::scan;
use crate::text;
use vstd::prelude::*;

verus! {

/// A switch that an environment variable turns on: `1`, or `true` in any case.
pub open spec fn switched_on(value: Seq<char>) -> bool {
    value == "1"@ || (value.len() == 4 && (value[0] == 't' || value[0] == 'T') && (value[1] == 'r'
        || value[1] == 'R') && (value[2] == 'u' || value[2] == 'U') && (value[3] == 'e' || value[3]
        == 'E'))
}

/// Whether an environment variable turns a switch on.
pub fn env_flag(value: Option<&str>) -> (b: bool)
    ensures
        b == (value matches Some(v) && switched_on(v@)),
{
    match value {
        Some(v) => {
            if text::same_text(v, "1") {
                return true;
            }
            if v.unicode_len() != 4 {
                return false;
            }
            let (t, r, u, e): (char, char, char, char) = (
                v.get_char(0),
                v.get_char(1),
                v.get_char(2),
                v.get_char(3),
            );
            (t == 't' || t == 'T') && (r == 'r' || r == 'R') && (u == 'u' || u == 'U') && (e == 'e'
                || e == 'E')
        },
        None => false,
    }
}

/// How many seconds to wait before a flow is checked: what the environment
/// says, if that is a number, or what is configured.
pub open spec fn grace(value: Option<Seq<char>>, configured: u64) -> u64 {
    match value {
        Some(v) => match scan::number_of(v) {
            Some(n) => if n <= u64::MAX {
                n as u64
            } else {
                configured
            },
            None => configured,
        },
        None => configured,
    }
}

pub fn grace_period(value: Option<&str>, configured: u64) -> (s: u64)
    ensures
        s == grace(
            match value {
                Some(v) => Some(v@),
                None => None,
            },
            configured,
        ),
{
    match value {
        Some(v) => match scan::parse_u64(v) {
            Some(n) => n,
            None => configured,
        },
        None => configured,
    }
}

// Where a path is mounted.

/// A mount table's line mounts a directory above `path`.
pub open spec fn covers(line: Seq<char>, path: Seq<char>) -> bool {
    let w = scan::words(line);
    w.len() >= 3 && w[1].is_prefix_of(path)
}

/// The kind of file system that holds `path`, and its mount point, after the
/// first `n` lines: the longest mount point counts, the first of equals.
pub open spec fn mounted(lines: Seq<Seq<char>>, path: Seq<char>, n: nat) -> (Seq<char>, Seq<char>)
    decreases n,
{
    if n == 0 {
        (Seq::empty(), Seq::empty())
    } else {
        let (point, kind) = mounted(lines, path, (n - 1) as nat);
        let w = scan::words(lines[n - 1]);
        if covers(lines[n - 1], path) && w[1].len() > point.len() {
            (w[1], w[2])
        } else {
            (point, kind)
        }
    }
}

/// Whether a path lies in memory, by the text of the mount table.
pub fn is_tmpfs(mounts: &str, path: &str) -> (b: bool)
    ensures
        b == (mounted(scan::lines(mounts@), path@, scan::lines(mounts@).len()).1 == "tmpfs"@),
{
    let lines: Vec<String> = scan::split_lines(mounts);
    let ghost all = scan::lines(mounts@);
    let mut point: String = String::new();
    let mut kind: String = String::new();
    assert(point@ =~= Seq::<char>::empty());
    assert(kind@ =~= Seq::<char>::empty());
    let mut i: usize = 0;
    while i < lines.len()
        invariant
            i <= lines@.len(),
            scan::texts(lines@) == all,
            (point@, kind@) == mounted(all, path@, i as nat),
        decreases lines@.len() - i,
    {
        assert(all[i as int] == lines@[i as int]@);
        let mut w: Vec<String> = scan::split_words(lines[i].as_str());
        let ghost parts = scan::words(all[i as int]);
        assert(scan::texts(w@).len() == w@.len());
        if w.len() >= 3 {
            assert(parts[1] == w@[1]@);
            assert(parts[2] == w@[2]@);
            if text::has_prefix(path, w[1].as_str()) && w[1].as_str().unicode_len()
                > point.as_str().unicode_len() {
                point = w[1].clone();
                kind = w[2].clone();
            }
        }
        i = i + 1;
    }
    assert(all.len() == lines@.len());
    text::same_text(kind.as_str(), "tmpfs")
}

/// The mount point that counts lies above the path, and no line that covers
/// the path has a longer one.
pub proof fn law_longest_mount_counts(lines: Seq<Seq<char>>, path: Seq<char>, n: nat, i: int)
    requires
        n <= lines.len(),
        0 <= i < n,
        covers(lines[i], path),
    ensures
        mounted(lines, path, n).0.is_prefix_of(path),
        scan::words(lines[i])[1].len() <= mounted(lines, path, n).0.len(),
    decreases n,
{
    lemma_mount_above(lines, path, n);
    if i < n - 1 {
        law_longest_mount_counts(lines, path, (n - 1) as nat, i);
    }
}

proof fn lemma_mount_above(lines: Seq<Seq<char>>, path: Seq<char>, n: nat)
    ensures
        mounted(lines, path, n).0.is_prefix_of(path),
    decreases n,
{
    if n > 0 {
        lemma_mount_above(lines, path, (n - 1) as nat);
    } else {
        assert(path.subrange(0, 0) =~= Seq::<char>::empty());
    }
}

} // verus!
