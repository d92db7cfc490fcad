//! Reading the source revision of a checkout: its branch, commit, short
//! commit and tag, from what `git` prints or, where `git` gives nothing,
//! from the repository's own files (`.git`, `HEAD`, the reference file and
//! `packed-refs`). The caller runs `git` and reads the files; these
//! functions decide what the values are.

use vstd::prelude::*;
use vstd::string::*;
use crate::cli::starts_with;
use crate::completions::{join_path, path_join};
use crate::text::{split_words, trim_text, trim_ws, words};

verus! {

broadcast use vstd::seq_lib::group_seq_properties;

/// `s` starts with `p`.
pub open spec fn has_prefix(s: Seq<char>, p: Seq<char>) -> bool {
    p.len() <= s.len() && s.take(p.len() as int) == p
}

/// `s` without the prefix `p`, when it starts with it (`str::strip_prefix`).
pub open spec fn strip_prefix(s: Seq<char>, p: Seq<char>) -> Option<Seq<char>> {
    if has_prefix(s, p) {
        Some(s.skip(p.len() as int))
    } else {
        None
    }
}

/// `s` without every leading repetition of a non-empty `p`
/// (`str::trim_start_matches`).
pub open spec fn strip_all_prefix(s: Seq<char>, p: Seq<char>) -> Seq<char>
    decreases s.len(),
{
    if p.len() > 0 && has_prefix(s, p) {
        strip_all_prefix(s.skip(p.len() as int), p)
    } else {
        s
    }
}

/// Whether `s` starts with `p`.
fn text_has_prefix(s: &str, p: &str) -> (b: bool)
    ensures
        b == has_prefix(s@, p@),
{
    let n = s.unicode_len();
    let m = p.unicode_len();
    if m > n {
        return false;
    }
    let mut k: usize = 0;
    while k < m
        invariant
            n == s@.len(),
            m == p@.len(),
            m <= n,
            k <= m,
            forall|q: int| 0 <= q < k ==> s@[q] == p@[q],
        decreases m - k,
    {
        if s.get_char(k) != p.get_char(k) {
            assert(s@.take(m as int)[k as int] != p@[k as int]);
            return false;
        }
        k = k + 1;
    }
    assert(s@.take(m as int) =~= p@);
    true
}

/// The text after the prefix `p`, trimmed, when `s` starts with `p`.
fn after_prefix(s: &str, p: &str) -> (r: Option<String>)
    ensures
        match r {
            Some(t) => has_prefix(s@, p@) && t@ == trim_ws(s@.skip(p@.len() as int)),
            None => !has_prefix(s@, p@),
        },
{
    if text_has_prefix(s, p) {
        let rest = s.substring_char(p.unicode_len(), s.unicode_len());
        assert(rest@ =~= s@.skip(p@.len() as int));
        Some(trim_text(rest))
    } else {
        None
    }
}

/// The reference that a `HEAD` file points to: what follows `ref:`,
/// trimmed; `None` for a detached `HEAD`.
pub open spec fn head_reference_of(head: Seq<char>) -> Option<Seq<char>> {
    match strip_prefix(head, "ref:"@) {
        Some(rest) => Some(trim_ws(rest)),
        None => None,
    }
}

/// Reads the reference that a `HEAD` file points to (see `head_reference_of`).
pub fn head_reference(head: &str) -> (r: Option<String>)
    ensures
        match r {
            Some(t) => head_reference_of(head@) == Some(t@),
            None => head_reference_of(head@) is None,
        },
{
    after_prefix(head, "ref:")
}

/// The path that a `.git` file of a linked checkout names: what follows
/// `gitdir:`, trimmed.
pub open spec fn gitdir_of(contents: Seq<char>) -> Option<Seq<char>> {
    match strip_prefix(contents, "gitdir:"@) {
        Some(rest) => Some(trim_ws(rest)),
        None => None,
    }
}

/// The git directory of a checkout at `repo_root`: `.git` itself when it is
/// a directory; else the path that the `.git` file names (relative paths
/// taken from `repo_root`); else none.
pub open spec fn git_dir_of(repo_root: Seq<char>, dot_git_is_dir: bool, dot_git_contents: Option<Seq<char>>) -> Option<Seq<char>> {
    if dot_git_is_dir {
        Some(path_join(repo_root, ".git"@))
    } else {
        match dot_git_contents {
            None => None,
            Some(c) => match gitdir_of(c) {
                None => None,
                Some(path) => if starts_with(path, '/') {
                    Some(path)
                } else {
                    Some(path_join(repo_root, path))
                },
            },
        }
    }
}

/// Finds the git directory of a checkout (see `git_dir_of`); the caller
/// tells whether `repo_root/.git` is a directory and, if it is a readable
/// file, what it holds.
pub fn resolve_git_dir(repo_root: &str, dot_git_is_dir: bool, dot_git_contents: Option<&str>) -> (r: Option<String>)
    ensures
        match r {
            Some(d) => git_dir_of(repo_root@, dot_git_is_dir, crate::completions::opt_text(dot_git_contents)) == Some(
                d@,
            ),
            None => git_dir_of(repo_root@, dot_git_is_dir, crate::completions::opt_text(dot_git_contents)) is None,
        },
{
    if dot_git_is_dir {
        return Some(join_path(repo_root, ".git"));
    }
    match dot_git_contents {
        None => None,
        Some(c) => match after_prefix(c, "gitdir:") {
            None => None,
            Some(path) => {
                if path.as_str().unicode_len() > 0 && path.as_str().get_char(0) == '/' {
                    Some(path)
                } else {
                    Some(join_path(repo_root, path.as_str()))
                }
            },
        },
    }
}

/// Number of leading characters of `s` before the first `\n`.
pub open spec fn line_len(s: Seq<char>) -> nat
    decreases s.len(),
{
    if s.len() == 0 || s[0] == '\n' {
        0
    } else {
        1 + line_len(s.drop_first())
    }
}

/// A line without the `\r` of a `\r\n` ending.
pub open spec fn without_cr(l: Seq<char>) -> Seq<char> {
    if l.len() > 0 && l.last() == '\r' {
        l.drop_last()
    } else {
        l
    }
}

/// The lines of `s` as `str::lines` yields them: split after each `\n`,
/// without the `\n` or a `\r\n`; a final line ending adds no empty line.
pub open spec fn lines(s: Seq<char>) -> Seq<Seq<char>>
    decreases s.len(),
{
    if s.len() == 0 {
        Seq::empty()
    } else {
        let n = line_len(s);
        if n >= s.len() {
            seq![s]
        } else {
            seq![without_cr(s.take(n as int))] + lines(s.skip(n + 1int))
        }
    }
}

proof fn lemma_line_len_from(s: Seq<char>, j: int)
    requires
        0 <= j <= s.len(),
        forall|k: int| 0 <= k < j ==> #[trigger] s[k] != '\n',
        j == s.len() || s[j] == '\n',
    ensures
        line_len(s) == j,
    decreases s.len(),
{
    if j > 0 {
        assert forall|k: int| 0 <= k < j - 1 implies #[trigger] s.drop_first()[k] != '\n' by {
            assert(s.drop_first()[k] == s[k + 1]);
        }
        if j < s.len() {
            assert(s.drop_first()[j - 1] == s[j]);
        }
        lemma_line_len_from(s.drop_first(), j - 1);
    }
}

/// How `lines` takes the line that starts at `i` and ends at `j` (at a
/// `\n` or at the end of `t`).
proof fn lemma_lines_step(t: Seq<char>, i: int, j: int)
    requires
        0 <= i < t.len(),
        i <= j <= t.len(),
        forall|k: int| i <= k < j ==> #[trigger] t[k] != '\n',
        j == t.len() || t[j] == '\n',
    ensures
        j == t.len() ==> lines(t.skip(i)) == seq![t.subrange(i, j)],
        j < t.len() ==> lines(t.skip(i)) == seq![without_cr(t.subrange(i, j))] + lines(t.skip(j + 1)),
{
    let u = t.skip(i);
    assert forall|k: int| 0 <= k < j - i implies #[trigger] u[k] != '\n' by {
        assert(u[k] == t[i + k]);
    }
    if j < t.len() {
        assert(u[j - i] == t[j]);
    }
    lemma_line_len_from(u, j - i);
    assert(u.take(j - i) =~= t.subrange(i, j));
    if j == t.len() {
        assert(u =~= t.subrange(i, j));
    } else {
        assert(u.skip(j - i + 1) =~= t.skip(j + 1));
    }
}

/// Splits `s` into lines (see `lines`).
pub fn split_lines(s: &str) -> (ls: Vec<String>)
    ensures
        ls@.map_values(|l: String| l@) == lines(s@),
{
    let ghost t = s@;
    let n = s.unicode_len();
    let mut ls: Vec<String> = Vec::new();
    let mut i: usize = 0;
    assert(t.skip(0) =~= t);
    while i < n
        invariant
            t == s@,
            n == t.len(),
            i <= n,
            ls@.map_values(|l: String| l@) + lines(t.skip(i as int)) == lines(t),
        decreases n - i,
    {
        let mut j: usize = i;
        while j < n && s.get_char(j) != '\n'
            invariant
                t == s@,
                n == t.len(),
                i <= j <= n,
                forall|k: int| i <= k < j ==> #[trigger] t[k] != '\n',
            decreases n - j,
        {
            j = j + 1;
        }
        proof {
            lemma_lines_step(t, i as int, j as int);
        }
        let ghost before = ls@.map_values(|l: String| l@);
        if j == n {
            let l = String::from_str(s.substring_char(i, n));
            ls.push(l);
            proof {
                assert(ls@.map_values(|l: String| l@) =~= before.push(l@));
                assert(t.skip(n as int) =~= Seq::<char>::empty());
                assert(before.push(l@) + lines(t.skip(n as int)) =~= before + lines(t.skip(i as int)));
            }
            i = n;
        } else {
            let end = if j > i && s.get_char(j - 1) == '\r' {
                j - 1
            } else {
                j
            };
            let l = String::from_str(s.substring_char(i, end));
            ls.push(l);
            proof {
                assert(l@ =~= without_cr(t.subrange(i as int, j as int)));
                assert(ls@.map_values(|l: String| l@) =~= before.push(l@));
                assert(before.push(l@) + lines(t.skip(j + 1)) =~= before + (seq![l@] + lines(t.skip(j + 1))));
            }
            i = j + 1;
        }
    }
    proof {
        assert(t.skip(n as int) =~= Seq::<char>::empty());
        assert(ls@.map_values(|l: String| l@) + Seq::<Seq<char>>::empty() =~= ls@.map_values(|l: String| l@));
    }
    ls
}

/// A line of `packed-refs` that names no reference: a comment, a peeled
/// tag line, or a blank line.
pub open spec fn ignored_ref_line(l: Seq<char>) -> bool {
    starts_with(l, '#') || starts_with(l, '^') || trim_ws(l).len() == 0
}

/// The commit that lines of `packed-refs` give for `reference`: the first
/// word of the first line whose second word is `reference`. The search gives
/// up (with no commit) at the first line that is not ignored and has fewer
/// than two words.
pub open spec fn packed_lookup(ls: Seq<Seq<char>>, reference: Seq<char>) -> Option<Seq<char>>
    decreases ls.len(),
{
    if ls.len() == 0 {
        None
    } else if ignored_ref_line(ls[0]) {
        packed_lookup(ls.drop_first(), reference)
    } else {
        let ws = words(ls[0]);
        if ws.len() < 2 {
            None
        } else if ws[1] == reference {
            Some(ws[0])
        } else {
            packed_lookup(ls.drop_first(), reference)
        }
    }
}

/// Looks `reference` up in the text of a `packed-refs` file (see
/// `packed_lookup`).
pub fn packed_ref_commit(packed_refs: &str, reference: &str) -> (c: Option<String>)
    ensures
        match c {
            Some(v) => packed_lookup(lines(packed_refs@), reference@) == Some(v@),
            None => packed_lookup(lines(packed_refs@), reference@) is None,
        },
{
    let ls = split_lines(packed_refs);
    let ghost lv = ls@.map_values(|l: String| l@);
    let mut i: usize = 0;
    assert(lv.skip(0) =~= lv);
    while i < ls.len()
        invariant
            lv == ls@.map_values(|l: String| l@),
            lv == lines(packed_refs@),
            i <= ls@.len(),
            packed_lookup(lv, reference@) == packed_lookup(lv.skip(i as int), reference@),
        decreases ls@.len() - i,
    {
        let line = ls[i].as_str();
        proof {
            assert(lv.skip(i as int)[0] == line@);
            assert(lv.skip(i as int).drop_first() =~= lv.skip(i + 1));
        }
        let blank = trim_text(line).as_str().unicode_len() == 0;
        let n = line.unicode_len();
        let first_mark = n > 0 && (line.get_char(0) == '#' || line.get_char(0) == '^');
        if !(first_mark || blank) {
            let ws = split_words(line);
            proof {
                assert(ws@.map_values(|w: String| w@) == words(line@));
            }
            if ws.len() < 2 {
                return None;
            }
            let name = ws[1].as_str();
            if String::from_str(name) == String::from_str(reference) {
                assert(words(line@)[0] == ws@[0]@);
                return Some(ws[0].clone());
            }
            assert(words(line@)[1] == ws@[1]@);
        }
        i = i + 1;
    }
    proof {
        assert(lv.skip(ls@.len() as int) =~= Seq::<Seq<char>>::empty());
    }
    None
}

/// The commit that `HEAD` stands for, read from the repository's files: for
/// an attached `HEAD`, the trimmed content of its reference file, else the
/// entry of `packed-refs`; for a detached one, the trimmed content of `HEAD`.
pub open spec fn head_commit_of(head_file: Option<Seq<char>>, ref_file: Option<Seq<char>>, packed_refs: Option<Seq<char>>) -> Option<Seq<char>> {
    let reference = match head_file {
        Some(h) => head_reference_of(h),
        None => None,
    };
    match reference {
        Some(r) => match ref_file {
            Some(c) => Some(trim_ws(c)),
            None => match packed_refs {
                Some(p) => packed_lookup(lines(p), r),
                None => None,
            },
        },
        None => match head_file {
            Some(h) => Some(trim_ws(h)),
            None => None,
        },
    }
}

/// Reference law: a `HEAD` file of the form `ref: <name>` points to `<name>`
/// trimmed; a file that does not start with `ref:` (a detached `HEAD`)
/// points to no reference.
pub proof fn lemma_head_reference(name: Seq<char>, head: Seq<char>)
    ensures
        head_reference_of("ref:"@ + name) == Some(trim_ws(name)),
        !(head.len() >= 4 && head.take(4) == "ref:"@) ==> head_reference_of(head) is None,
{
    reveal_strlit("ref:");
    assert(("ref:"@ + name).take(4) =~= "ref:"@);
    assert(("ref:"@ + name).skip(4) =~= name);
}

/// Head-commit law: for an attached `HEAD` whose reference file could be
/// read, the commit is that file's trimmed content, whatever `packed-refs`
/// holds; only when the reference file cannot be read is `packed-refs`
/// looked up for the reference; and a detached `HEAD` names the commit
/// itself.
pub proof fn lemma_head_commit_sources(head: Seq<char>, ref_file: Option<Seq<char>>, packed_refs: Option<Seq<char>>)
    ensures
        head_reference_of(head) is Some && ref_file is Some ==> head_commit_of(Some(head), ref_file, packed_refs) == Some(
            trim_ws(ref_file->Some_0),
        ),
        head_reference_of(head) is Some && ref_file is None && packed_refs is Some ==> head_commit_of(
            Some(head),
            ref_file,
            packed_refs,
        ) == packed_lookup(lines(packed_refs->Some_0), head_reference_of(head)->Some_0),
        head_reference_of(head) is Some && ref_file is None && packed_refs is None ==> head_commit_of(
            Some(head),
            ref_file,
            packed_refs,
        ) is None,
        head_reference_of(head) is None ==> head_commit_of(Some(head), ref_file, packed_refs) == Some(trim_ws(head)),
        head_commit_of(None, ref_file, packed_refs) is None,
{
}

/// Reads the commit of `HEAD` from the files the caller could read: `HEAD`,
/// the reference file it points to, and `packed-refs` (see
/// `head_commit_of`).
pub fn read_head_commit(head_file: Option<&str>, ref_file: Option<&str>, packed_refs: Option<&str>) -> (c: Option<String>)
    ensures
        match c {
            Some(v) => head_commit_of(
                crate::completions::opt_text(head_file),
                crate::completions::opt_text(ref_file),
                crate::completions::opt_text(packed_refs),
            ) == Some(v@),
            None => head_commit_of(
                crate::completions::opt_text(head_file),
                crate::completions::opt_text(ref_file),
                crate::completions::opt_text(packed_refs),
            ) is None,
        },
{
    let reference = match head_file {
        Some(h) => head_reference(h),
        None => None,
    };
    match reference {
        Some(r) => match ref_file {
            Some(c) => Some(trim_text(c)),
            None => match packed_refs {
                Some(p) => packed_ref_commit(p, r.as_str()),
                None => None,
            },
        },
        None => match head_file {
            Some(h) => Some(trim_text(h)),
            None => None,
        },
    }
}

/// What a `git` command printed, trimmed; `None` when it failed or printed
/// nothing but white space.
pub open spec fn git_value(out: Option<Seq<char>>) -> Option<Seq<char>> {
    match out {
        Some(o) => if trim_ws(o).len() > 0 {
            Some(trim_ws(o))
        } else {
            None
        },
        None => None,
    }
}

/// Reads what a `git` command printed (see `git_value`).
fn read_git_value(out: Option<&str>) -> (v: Option<String>)
    ensures
        match v {
            Some(t) => git_value(crate::completions::opt_text(out)) == Some(t@),
            None => git_value(crate::completions::opt_text(out)) is None,
        },
{
    match out {
        Some(o) => {
            let t = trim_text(o);
            if t.as_str().unicode_len() > 0 {
                Some(t)
            } else {
                None
            }
        },
        None => None,
    }
}

/// The short form of a commit: its first 12 characters, or `unknown` kept as
/// it is.
pub open spec fn short_commit_of(commit: Seq<char>) -> Seq<char> {
    if commit == "unknown"@ {
        commit
    } else if commit.len() <= 12 {
        commit
    } else {
        commit.take(12)
    }
}

/// Shortens a commit id (see `short_commit_of`).
pub fn short_commit_from(commit: &str) -> (s: String)
    ensures
        s@ == short_commit_of(commit@),
{
    if String::from_str(commit) == String::from_str("unknown") {
        return String::from_str(commit);
    }
    let n = commit.unicode_len();
    if n <= 12 {
        String::from_str(commit)
    } else {
        let s = String::from_str(commit.substring_char(0, 12));
        assert(s@ =~= commit@.take(12));
        s
    }
}

/// Removes every leading repetition of `p` from `s` (see `strip_all_prefix`).
fn strip_all(s: &str, p: &str) -> (t: String)
    ensures
        t@ == strip_all_prefix(s@, p@),
{
    let n = s.unicode_len();
    let m = p.unicode_len();
    if m == 0 {
        return String::from_str(s);
    }
    let mut rest = String::from_str(s);
    while text_has_prefix(rest.as_str(), p)
        invariant
            m == p@.len(),
            m > 0,
            strip_all_prefix(rest@, p@) == strip_all_prefix(s@, p@),
        decreases rest@.len(),
    {
        let k = rest.as_str().unicode_len();
        let next = String::from_str(rest.as_str().substring_char(m, k));
        assert(next@ =~= rest@.skip(m as int));
        rest = next;
    }
    rest
}

/// The branch of a checkout: what `git rev-parse --abbrev-ref HEAD` printed
/// (`detached` when that is `HEAD`); else the reference that the `HEAD` file
/// names, without its `refs/heads/` prefix; else `unknown`.
pub open spec fn branch_of(abbrev_out: Option<Seq<char>>, head_file: Option<Seq<char>>) -> Seq<char> {
    match git_value(abbrev_out) {
        Some(v) => if v == "HEAD"@ {
            "detached"@
        } else {
            v
        },
        None => match head_file {
            Some(h) => match head_reference_of(h) {
                Some(r) => strip_all_prefix(r, "refs/heads/"@),
                None => "unknown"@,
            },
            None => "unknown"@,
        },
    }
}

/// The commit of a checkout: what `git rev-parse HEAD` printed, else the
/// commit read from the repository's files, else `unknown`.
pub open spec fn commit_of(head_out: Option<Seq<char>>, head_commit: Option<Seq<char>>) -> Seq<char> {
    match git_value(head_out) {
        Some(v) => v,
        None => match head_commit {
            Some(c) => c,
            None => "unknown"@,
        },
    }
}

/// The short commit: what `git rev-parse --short=12 HEAD` printed, else the
/// commit shortened.
pub open spec fn short_of(short_out: Option<Seq<char>>, commit: Seq<char>) -> Seq<char> {
    match git_value(short_out) {
        Some(v) => v,
        None => short_commit_of(commit),
    }
}

/// The revision of a checkout.
#[derive(Debug, Clone, PartialEq, Eq)]
pub struct GitMetadata {
    pub branch: String,
    pub commit: String,
    pub short_commit: String,
    /// The tag on the commit, if it has one.
    pub tag: Option<String>,
}

/// Settles the revision of a checkout from the outputs of
/// `git rev-parse --abbrev-ref HEAD`, `git rev-parse HEAD`,
/// `git rev-parse --short=12 HEAD` and `git describe --tags --exact-match HEAD`
/// (`None` where the command failed), the content of the `HEAD` file and the
/// commit read from the repository's files (see `branch_of`, `commit_of`,
/// `short_of`; the tag is the trimmed output of `git describe`).
pub fn git_metadata(
    abbrev_out: Option<&str>,
    head_out: Option<&str>,
    short_out: Option<&str>,
    describe_out: Option<&str>,
    head_file: Option<&str>,
    head_commit: Option<&str>,
) -> (m: GitMetadata)
    ensures
        m.branch@ == branch_of(crate::completions::opt_text(abbrev_out), crate::completions::opt_text(head_file)),
        m.commit@ == commit_of(crate::completions::opt_text(head_out), crate::completions::opt_text(head_commit)),
        m.short_commit@ == short_of(crate::completions::opt_text(short_out), m.commit@),
        match m.tag {
            Some(t) => git_value(crate::completions::opt_text(describe_out)) == Some(t@),
            None => git_value(crate::completions::opt_text(describe_out)) is None,
        },
{
    proof {
        reveal_strlit("HEAD");
        reveal_strlit("detached");
        reveal_strlit("unknown");
    }
    let branch = match read_git_value(abbrev_out) {
        Some(v) => {
            if v == String::from_str("HEAD") {
                String::from_str("detached")
            } else {
                v
            }
        },
        None => match head_file {
            Some(h) => match head_reference(h) {
                Some(r) => strip_all(r.as_str(), "refs/heads/"),
                None => String::from_str("unknown"),
            },
            None => String::from_str("unknown"),
        },
    };
    let commit = match read_git_value(head_out) {
        Some(v) => v,
        None => match head_commit {
            Some(c) => String::from_str(c),
            None => String::from_str("unknown"),
        },
    };
    let short_commit = match read_git_value(short_out) {
        Some(v) => v,
        None => short_commit_from(commit.as_str()),
    };
    let tag = read_git_value(describe_out);
    GitMetadata { branch, commit, short_commit, tag }
}

} // verus!
