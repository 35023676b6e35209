//! Pure parsing of the repository tool's machine-readable output: the
//! porcelain status block, the ahead/behind count line, and the branch name.

use vstd::prelude::*;
use vstd::string::*;
use crate::model::{FileStatus, GitFile, FileEntry, GitStatus, files_view};

verus! {

/// Classification of a porcelain code pair, in the documented priority
/// order: index codes `A`/`M`/`D`/`R` first, then fully untracked `??`,
/// then worktree `M`/`D`, defaulting to `Modified`.
pub open spec fn classify_spec(index_code: char, worktree_code: char) -> FileStatus {
    if index_code == 'A' {
        FileStatus::Added
    } else if index_code == 'M' {
        FileStatus::Staged
    } else if index_code == 'D' {
        FileStatus::Deleted
    } else if index_code == 'R' {
        FileStatus::Renamed
    } else if index_code == '?' && worktree_code == '?' {
        FileStatus::Untracked
    } else if worktree_code == 'M' {
        FileStatus::Modified
    } else if worktree_code == 'D' {
        FileStatus::Deleted
    } else {
        FileStatus::Modified
    }
}

/// A path has staged changes iff its index code is neither blank nor `?`.
pub open spec fn staged_spec(index_code: char) -> bool {
    index_code != ' ' && index_code != '?'
}

/// Classify one two-character porcelain code pair.
pub fn classify(index_code: char, worktree_code: char) -> (r: FileStatus)
    ensures
        r == classify_spec(index_code, worktree_code),
{
    if index_code == 'A' {
        FileStatus::Added
    } else if index_code == 'M' {
        FileStatus::Staged
    } else if index_code == 'D' {
        FileStatus::Deleted
    } else if index_code == 'R' {
        FileStatus::Renamed
    } else if index_code == '?' && worktree_code == '?' {
        FileStatus::Untracked
    } else if worktree_code == 'M' {
        FileStatus::Modified
    } else if worktree_code == 'D' {
        FileStatus::Deleted
    } else {
        FileStatus::Modified
    }
}

/// Whether the index code marks the path as staged.
pub fn staged_of(index_code: char) -> (r: bool)
    ensures
        r == staged_spec(index_code),
{
    index_code != ' ' && index_code != '?'
}

// ---------------------------------------------------------------------------
// Whitespace trimming
// ---------------------------------------------------------------------------

/// The whitespace characters the tool's output can carry around a token.
pub open spec fn is_ws(c: char) -> bool {
    c == ' ' || c == '\t' || c == '\n' || c == '\r'
}

/// The sequence with leading and trailing whitespace removed.
pub open spec fn trim_spec(s: Seq<char>) -> Seq<char>
    decreases s.len(),
{
    if s.len() == 0 {
        s
    } else if is_ws(s[0]) {
        trim_spec(s.drop_first())
    } else if is_ws(s.last()) {
        trim_spec(s.drop_last())
    } else {
        s
    }
}

/// Trimming a fully-whitespace sequence leaves nothing.
proof fn lemma_trim_all_ws(s: Seq<char>)
    requires
        forall|k: int| 0 <= k < s.len() ==> is_ws(s[k]),
    ensures
        trim_spec(s) == Seq::<char>::empty(),
    decreases s.len(),
{
    if s.len() > 0 {
        lemma_trim_all_ws(s.drop_first());
    } else {
        assert(s =~= Seq::<char>::empty());
    }
}

/// Trimming keeps exactly the span between the first and last
/// non-whitespace characters.
proof fn lemma_trim_subrange(s: Seq<char>, a: int, b: int)
    requires
        0 <= a < b <= s.len(),
        forall|k: int| 0 <= k < a ==> is_ws(s[k]),
        forall|k: int| b <= k < s.len() ==> is_ws(s[k]),
        !is_ws(s[a]),
        !is_ws(s[b - 1]),
    ensures
        trim_spec(s) == s.subrange(a, b),
    decreases s.len(),
{
    if a > 0 {
        assert(is_ws(s[0]));
        let s1 = s.drop_first();
        lemma_trim_subrange(s1, a - 1, b - 1);
        assert(s1.subrange(a - 1, b - 1) =~= s.subrange(a, b));
    } else if b < s.len() {
        assert(is_ws(s.last()));
        assert(!is_ws(s[0]));
        let s1 = s.drop_last();
        lemma_trim_subrange(s1, a, b);
        assert(s1.subrange(a, b) =~= s.subrange(a, b));
    } else {
        assert(!is_ws(s[0]));
        assert(!is_ws(s.last()));
        assert(s.subrange(0, s.len() as int) =~= s);
    }
}

/// Whether every character of the sequence is whitespace.
pub open spec fn is_blank(s: Seq<char>) -> bool {
    forall|i: int| 0 <= i < s.len() ==> is_ws(s[i])
}

/// Whether the character counts as whitespace when trimming.
pub fn is_ws_char(c: char) -> (r: bool)
    ensures
        r == is_ws(c),
{
    c == ' ' || c == '\t' || c == '\n' || c == '\r'
}

/// The bounds of the trimmed span of `s`: `trim_spec(s@)` is exactly
/// `s@.subrange(a, b)` for the returned pair `(a, b)`.
pub fn trim_bounds(s: &str) -> (r: (usize, usize))
    ensures
        r.0 <= r.1 <= s@.len(),
        trim_spec(s@) == s@.subrange(r.0 as int, r.1 as int),
{
    let n = s.unicode_len();
    let mut a: usize = 0;
    while a < n && is_ws_char(s.get_char(a))
        invariant
            0 <= a <= n,
            n == s@.len(),
            forall|k: int| 0 <= k < a ==> is_ws(s@[k]),
        decreases n - a,
    {
        a = a + 1;
    }
    if a == n {
        proof {
            lemma_trim_all_ws(s@);
            assert(s@.subrange(0, 0) =~= Seq::<char>::empty());
        }
        return (0, 0);
    }
    let mut b: usize = n;
    while b > a + 1 && is_ws_char(s.get_char(b - 1))
        invariant
            a < b <= n,
            n == s@.len(),
            forall|k: int| b <= k < n ==> is_ws(s@[k]),
        decreases b,
    {
        b = b - 1;
    }
    proof {
        lemma_trim_subrange(s@, a as int, b as int);
    }
    (a, b)
}

// ---------------------------------------------------------------------------
// Counting: the ahead/behind line
// ---------------------------------------------------------------------------

/// Whether the character is a decimal digit.
pub open spec fn is_digit(c: char) -> bool {
    48 <= c as u32 <= 57
}

/// The numeric value of a digit character.
pub open spec fn digit_val(c: char) -> int {
    c as u32 - 48
}

/// Whether every character of the sequence is a decimal digit.
pub open spec fn all_digits(s: Seq<char>) -> bool {
    forall|i: int| 0 <= i < s.len() ==> is_digit(s[i])
}

/// The value of a digit string read from the left.
pub open spec fn digits_val(s: Seq<char>) -> int
    decreases s.len(),
{
    if s.len() == 0 {
        0
    } else {
        digits_val(s.drop_last()) * 10 + digit_val(s.last())
    }
}

/// One count field: its digit value when the field is a non-empty digit
/// string whose value fits, and the default 0 otherwise.
pub open spec fn count_spec(s: Seq<char>) -> u32 {
    if s.len() > 0 && all_digits(s) && digits_val(s) <= u32::MAX {
        digits_val(s) as u32
    } else {
        0
    }
}

/// A digit string's value is never negative.
proof fn lemma_digits_val_nonneg(s: Seq<char>)
    requires
        all_digits(s),
    ensures
        digits_val(s) >= 0,
    decreases s.len(),
{
    if s.len() > 0 {
        lemma_digits_val_nonneg(s.drop_last());
    }
}

/// A digit string's value never shrinks as the string grows to the right.
proof fn lemma_digits_val_mono(s: Seq<char>, i: int, j: int)
    requires
        0 <= i <= j <= s.len(),
        all_digits(s),
    ensures
        digits_val(s.subrange(0, i)) <= digits_val(s.subrange(0, j)),
    decreases j - i,
{
    if i < j {
        lemma_digits_val_mono(s, i, j - 1);
        let t = s.subrange(0, j);
        assert(t.drop_last() =~= s.subrange(0, j - 1));
        assert(all_digits(s.subrange(0, j - 1)));
        lemma_digits_val_nonneg(s.subrange(0, j - 1));
        assert(is_digit(t.last()));
    }
}

/// Read the count field `s@.subrange(from, to)`; malformed or oversized
/// fields yield 0 rather than an error.
fn parse_count(s: &str, from: usize, to: usize) -> (r: u32)
    requires
        from <= to <= s@.len(),
    ensures
        r == count_spec(s@.subrange(from as int, to as int)),
{
    let ghost t = s@.subrange(from as int, to as int);
    if from == to {
        return 0;
    }
    let mut val: u32 = 0;
    let mut i: usize = from;
    while i < to
        invariant
            from <= i <= to <= s@.len(),
            t == s@.subrange(from as int, to as int),
            all_digits(t.subrange(0, i - from)),
            val == digits_val(t.subrange(0, i - from)),
        decreases to - i,
    {
        let c = s.get_char(i);
        proof {
            assert(t[i - from] == s@[i as int]);
        }
        let cu = c as u32;
        if cu < 48 || cu > 57 {
            proof {
                assert(!is_digit(t[i - from]));
            }
            return 0;
        }
        let d = cu - 48;
        proof {
            assert(t.subrange(0, i - from + 1).drop_last() =~= t.subrange(0, i - from));
            assert(t.subrange(0, i - from + 1).last() == t[i - from]);
        }
        if val as u64 * 10 + d as u64 > u32::MAX as u64 {
            proof {
                assert(digits_val(t.subrange(0, i - from + 1)) > u32::MAX);
                if all_digits(t) && digits_val(t) <= u32::MAX {
                    lemma_digits_val_mono(t, i - from + 1, t.len() as int);
                    assert(t.subrange(0, t.len() as int) =~= t);
                }
            }
            return 0;
        }
        val = val * 10 + d;
        i = i + 1;
    }
    proof {
        assert(t.subrange(0, t.len() as int) =~= t);
    }
    val
}

/// Where the single tab of the trimmed count line sits, when there is
/// exactly one.
pub open spec fn single_tab_at(t: Seq<char>, i: int) -> bool {
    &&& 0 <= i < t.len()
    &&& t[i] == '\t'
    &&& forall|j: int| 0 <= j < t.len() && t[j] == '\t' ==> j == i
}

/// The ahead/behind pair read from one raw output line: the two count
/// fields around the single tab of the trimmed line, each defaulting to 0
/// when malformed, and `(0, 0)` when the tab structure itself is off.
pub open spec fn ahead_behind_spec(s: Seq<char>) -> (u32, u32) {
    let t = trim_spec(s);
    if exists|i: int| single_tab_at(t, i) {
        let i = choose|i: int| single_tab_at(t, i);
        (count_spec(t.subrange(0, i)), count_spec(t.subrange(i + 1, t.len() as int)))
    } else {
        (0, 0)
    }
}

/// Parse the `"<ahead>\t<behind>"` line. Any malformed part defaults to 0;
/// parsing never fails.
pub fn parse_ahead_behind(s: &str) -> (r: (u32, u32))
    ensures
        r == ahead_behind_spec(s@),
{
    let (a, b) = trim_bounds(s);
    let ghost t = trim_spec(s@);
    // find the first tab of the trimmed span
    let mut ft: usize = a;
    while ft < b && s.get_char(ft) != '\t'
        invariant
            a <= ft <= b <= s@.len(),
            t == s@.subrange(a as int, b as int),
            forall|k: int| a <= k < ft ==> s@[k] != '\t',
        decreases b - ft,
    {
        ft = ft + 1;
    }
    if ft == b {
        proof {
            assert(forall|i: int| 0 <= i < t.len() ==> t[i] == s@[a + i] && s@[a + i] != '\t');
            assert(!exists|i: int| single_tab_at(t, i));
        }
        return (0, 0);
    }
    // make sure it is the only tab
    let mut j: usize = ft + 1;
    while j < b && s.get_char(j) != '\t'
        invariant
            ft < j <= b <= s@.len(),
            t == s@.subrange(a as int, b as int),
            forall|k: int| ft < k < j ==> s@[k] != '\t',
        decreases b - j,
    {
        j = j + 1;
    }
    if j < b {
        proof {
            assert(t[ft - a] == '\t');
            assert(t[j - a] == '\t');
            assert forall|i: int| !single_tab_at(t, i) by {
                if single_tab_at(t, i) {
                    assert(i == ft - a && i == j - a);
                }
            }
        }
        return (0, 0);
    }
    proof {
        assert(single_tab_at(t, ft - a));
        let w = choose|i: int| single_tab_at(t, i);
        assert(w == ft - a);
        assert(t.subrange(0, ft - a) =~= s@.subrange(a as int, ft as int));
        assert(t.subrange(ft - a + 1, t.len() as int) =~= s@.subrange(ft as int + 1, b as int));
    }
    let ahead = parse_count(s, a, ft);
    let behind = parse_count(s, ft + 1, b);
    (ahead, behind)
}

// ---------------------------------------------------------------------------
// The branch name
// ---------------------------------------------------------------------------

/// The branch name from the branch query: the trimmed output when the
/// query succeeded with something non-empty, the sentinel otherwise.
pub open spec fn branch_spec(ok: bool, out: Seq<char>) -> Seq<char> {
    if ok && trim_spec(out).len() > 0 {
        trim_spec(out)
    } else {
        "unknown"@
    }
}

/// Read the branch name from the branch query's outcome.
pub fn parse_branch(ok: bool, out: &str) -> (r: String)
    ensures
        r@ == branch_spec(ok, out@),
{
    if ok {
        let (a, b) = trim_bounds(out);
        if b > a {
            let trimmed = out.substring_char(a, b);
            return trimmed.to_owned();
        }
    }
    "unknown".to_owned()
}

// ---------------------------------------------------------------------------
// The porcelain status block
// ---------------------------------------------------------------------------

/// The input split at every newline; the separators are discarded. There
/// is always at least one (possibly empty) line.
pub open spec fn split_lines(s: Seq<char>) -> Seq<Seq<char>>
    decreases s.len(),
{
    if s.len() == 0 {
        seq![Seq::<char>::empty()]
    } else if s[0] == '\n' {
        seq![Seq::<char>::empty()] + split_lines(s.drop_first())
    } else {
        let rest = split_lines(s.drop_first());
        seq![seq![s[0]] + rest[0]] + rest.drop_first()
    }
}

/// The file entry one line yields: a trailing carriage return is dropped,
/// lines shorter than three characters are dropped silently, and the rest
/// carry the status code pair at offsets 0 and 1 and the path from offset 3.
pub open spec fn entry_of_line(line: Seq<char>) -> Option<FileEntry> {
    let l = if line.len() > 0 && line.last() == '\r' {
        line.drop_last()
    } else {
        line
    };
    if l.len() >= 3 {
        Some(
            FileEntry {
                path: l.subrange(3, l.len() as int),
                status: classify_spec(l[0], l[1]),
                staged: staged_spec(l[0]),
            },
        )
    } else {
        None
    }
}

/// The entries of a sequence of lines, in order, with unusable lines
/// dropped.
pub open spec fn entries_of_lines(lines: Seq<Seq<char>>) -> Seq<FileEntry>
    decreases lines.len(),
{
    if lines.len() == 0 {
        Seq::<FileEntry>::empty()
    } else {
        match entry_of_line(lines[0]) {
            Some(e) => seq![e] + entries_of_lines(lines.drop_first()),
            None => entries_of_lines(lines.drop_first()),
        }
    }
}

/// The file entries of a whole porcelain status block.
pub open spec fn porcelain_spec(s: Seq<char>) -> Seq<FileEntry> {
    entries_of_lines(split_lines(s))
}

/// How `split_lines` decomposes at the first newline: a newline-free
/// input is one single line, and otherwise the part before the first
/// newline is the first line and the rest splits on its own.
proof fn lemma_split_lines_at(s: Seq<char>, e: int)
    requires
        0 <= e <= s.len(),
        forall|k: int| 0 <= k < e ==> s[k] != '\n',
    ensures
        e == s.len() ==> split_lines(s) =~~= seq![s],
        e < s.len() && s[e] == '\n' ==> split_lines(s) =~~= seq![s.subrange(0, e)]
            + split_lines(s.subrange(e + 1, s.len() as int)),
    decreases s.len(),
{
    if s.len() == 0 {
        assert(s =~= Seq::<char>::empty());
        assert(split_lines(s) =~~= seq![s]);
    } else if e == 0 {
        if 0 < s.len() && s[0] == '\n' {
            assert(s.drop_first() =~= s.subrange(1, s.len() as int));
            assert(s.subrange(0, 0) =~= Seq::<char>::empty());
            assert(split_lines(s) =~~= seq![s.subrange(0, 0)] + split_lines(
                s.subrange(1, s.len() as int),
            ));
        }
    } else {
        let s1 = s.drop_first();
        lemma_split_lines_at(s1, e - 1);
        let rest = split_lines(s1);
        if e == s.len() {
            assert(rest =~~= seq![s1]);
            assert(seq![s[0]] + rest[0] =~= s);
            assert(rest.drop_first() =~~= Seq::<Seq<char>>::empty());
            assert(split_lines(s) =~~= seq![s]);
        } else if s[e] == '\n' {
            assert(s1[e - 1] == '\n');
            assert(s1.subrange(e, s1.len() as int) =~= s.subrange(e + 1, s.len() as int));
            assert(rest =~~= seq![s1.subrange(0, e - 1)] + split_lines(
                s.subrange(e + 1, s.len() as int),
            ));
            assert(rest[0] == s1.subrange(0, e - 1));
            assert(seq![s[0]] + s1.subrange(0, e - 1) =~= s.subrange(0, e));
            assert(rest.drop_first() =~~= split_lines(s.subrange(e + 1, s.len() as int)));
            assert(split_lines(s) =~~= seq![s.subrange(0, e)] + split_lines(
                s.subrange(e + 1, s.len() as int),
            ));
        }
    }
}

/// The entries of a line list start with the first line's entry.
proof fn lemma_entries_cons(l: Seq<char>, rest: Seq<Seq<char>>)
    ensures
        entries_of_lines(seq![l] + rest) == (match entry_of_line(l) {
            Some(e) => seq![e] + entries_of_lines(rest),
            None => entries_of_lines(rest),
        }),
{
    let ls = seq![l] + rest;
    assert(ls[0] == l);
    assert(ls.drop_first() =~~= rest);
}

/// Find the next newline of `s` at or after `start`.
fn find_line_end(s: &str, start: usize) -> (e: usize)
    requires
        start <= s@.len(),
    ensures
        start <= e <= s@.len(),
        forall|k: int| start <= k < e ==> s@[k] != '\n',
        e < s@.len() ==> s@[e as int] == '\n',
{
    let n = s.unicode_len();
    let mut e = start;
    while e < n && s.get_char(e) != '\n'
        invariant
            start <= e <= n,
            n == s@.len(),
            forall|k: int| start <= k < e ==> s@[k] != '\n',
        decreases n - e,
    {
        e = e + 1;
    }
    e
}

/// Parse one porcelain status block into the ordered file list. Every
/// usable line yields one entry; malformed lines are dropped silently.
pub fn parse_porcelain(s: &str) -> (files: Vec<GitFile>)
    ensures
        files_view(files@) == porcelain_spec(s@),
{
    let n = s.unicode_len();
    let mut files: Vec<GitFile> = Vec::new();
    let mut start: usize = 0;
    proof {
        assert(s@.subrange(0, n as int) =~= s@);
        assert(files_view(files@) =~= Seq::<FileEntry>::empty());
        assert(files_view(files@) + porcelain_spec(s@) =~= porcelain_spec(s@));
    }
    loop
        invariant_except_break
            start <= n,
            n == s@.len(),
            porcelain_spec(s@) == files_view(files@) + entries_of_lines(
                split_lines(s@.subrange(start as int, n as int)),
            ),
        ensures
            files_view(files@) == porcelain_spec(s@),
        decreases n - start,
    {
        let ghost suffix = s@.subrange(start as int, n as int);
        let e = find_line_end(s, start);
        proof {
            lemma_split_lines_at(suffix, e - start);
        }
        let ghost line = s@.subrange(start as int, e as int);
        proof {
            assert(suffix.subrange(0, e - start) =~= line);
            if e < n {
                assert(suffix[e - start] == '\n');
                assert(suffix.subrange(e - start + 1, suffix.len() as int) =~= s@.subrange(
                    e as int + 1,
                    n as int,
                ));
                assert(split_lines(suffix) =~~= seq![line] + split_lines(
                    s@.subrange(e as int + 1, n as int),
                ));
                lemma_entries_cons(line, split_lines(s@.subrange(e as int + 1, n as int)));
            } else {
                assert(suffix =~= line);
                assert(split_lines(suffix) =~~= seq![line] + Seq::<Seq<char>>::empty());
                lemma_entries_cons(line, Seq::<Seq<char>>::empty());
            }
        }
        // drop one trailing carriage return, as the tool may emit one
        let mut lend = e;
        if lend > start && s.get_char(lend - 1) == '\r' {
            lend = lend - 1;
        }
        let ghost l = s@.subrange(start as int, lend as int);
        proof {
            if line.len() > 0 && line.last() == '\r' {
                assert(line.drop_last() =~= l);
            } else {
                assert(line =~= l);
            }
        }
        if lend - start >= 3 {
            let c0 = s.get_char(start);
            let c1 = s.get_char(start + 1);
            let path = s.substring_char(start + 3, lend);
            let entry = GitFile { path: path.to_owned(), status: classify(c0, c1), staged: staged_of(c0) };
            proof {
                assert(l[0] == s@[start as int]);
                assert(l[1] == s@[start as int + 1]);
                assert(l.subrange(3, l.len() as int) =~= s@.subrange(start as int + 3, lend as int));
                assert(entry_of_line(line) == Some(entry.entry()));
            }
            let ghost old_files = files@;
            files.push(entry);
            proof {
                assert(files_view(files@) =~= files_view(old_files) + seq![entry.entry()]);
                assert(files_view(old_files) + (seq![entry.entry()] + entries_of_lines(
                    split_lines(s@.subrange(e as int + 1, n as int)),
                )) =~= files_view(files@) + entries_of_lines(
                    split_lines(s@.subrange(e as int + 1, n as int)),
                ));
            }
        } else {
            proof {
                assert(entry_of_line(line) is None);
            }
        }
        if e == n {
            proof {
                assert(entries_of_lines(Seq::<Seq<char>>::empty()) =~= Seq::<FileEntry>::empty());
                assert(files_view(files@) + Seq::<FileEntry>::empty() =~= files_view(files@));
            }
            break;
        }
        start = e + 1;
    }
    files
}

// ---------------------------------------------------------------------------
// One whole synchronization
// ---------------------------------------------------------------------------

/// Build a repository snapshot from the outcomes of the three queries.
/// Each query that failed falls back to its default: the sentinel branch
/// name, zero counts, an empty file list.
pub fn build_status(
    branch_ok: bool,
    branch_out: &str,
    counts_ok: bool,
    counts_out: &str,
    files_ok: bool,
    files_out: &str,
) -> (r: GitStatus)
    ensures
        r.current_branch@ == branch_spec(branch_ok, branch_out@),
        counts_ok ==> (r.ahead, r.behind) == ahead_behind_spec(counts_out@),
        !counts_ok ==> r.ahead == 0 && r.behind == 0,
        files_ok ==> files_view(r.files@) == porcelain_spec(files_out@),
        !files_ok ==> r.files@.len() == 0,
{
    let current_branch = parse_branch(branch_ok, branch_out);
    let (ahead, behind) = if counts_ok {
        parse_ahead_behind(counts_out)
    } else {
        (0, 0)
    };
    let files = if files_ok {
        parse_porcelain(files_out)
    } else {
        Vec::new()
    };
    GitStatus { current_branch, ahead, behind, files }
}

} // verus!
