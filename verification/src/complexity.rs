//! The tree scanner: filters scan entries (pruning hidden names, keeping
//! recognized source extensions), classifies each readable file with the
//! line classifier, and accumulates repository-wide statistics.
//!
//! A scan entry is the scanner's pure picture of one directory entry: its
//! path components below the scan root, whether it is a regular file, and
//! its text when it could be read. Enumerating a directory tree into such
//! entries is input/output and lives with the caller.

use vstd::prelude::*;

use crate::classify::classify_bytes;
use crate::classify::classify_tally;
use crate::classify::lemma_classify_conservation;
use crate::classify::LineTally;

verus! {

/// Repository-wide line statistics: the sums of per-file statistics over
/// all counted files.
#[derive(PartialEq, Eq, Structural, Clone, Copy, Debug)]
pub struct ComplexityStats {
    pub file_count: usize,
    pub total_lines: usize,
    pub code_lines: usize,
    pub comment_lines: usize,
    pub blank_lines: usize,
}

impl Default for ComplexityStats {
    /// The zero aggregate.
    fn default() -> (r: Self)
        ensures
            repo_stats_match(r, repo_zero()),
    {
        ComplexityStats {
            file_count: 0,
            total_lines: 0,
            code_lines: 0,
            comment_lines: 0,
            blank_lines: 0,
        }
    }
}

/// One enumerated directory entry, as the scanner sees it.
pub struct ScanEntry {
    /// Path components below the scan root, ending with the entry's own
    /// name.
    pub segments: Vec<Vec<u8>>,
    /// Whether the entry is a regular file.
    pub is_file: bool,
    /// The file's text; `None` when it could not be read as text.
    pub content: Option<Vec<u8>>,
}

/// A name beginning with a dot is hidden.
pub open spec fn hidden_name(name: Seq<u8>) -> bool {
    name.len() > 0 && name[0] == 46
}

/// Some component of the path is hidden, so the entry is pruned.
pub open spec fn path_pruned(segments: Seq<Vec<u8>>) -> bool {
    exists|k: int| 0 <= k < segments.len() && hidden_name((#[trigger] segments[k])@)
}

/// Index of the last dot in `name`, or -1 when there is none.
pub open spec fn last_dot(name: Seq<u8>) -> int
    decreases name.len(),
{
    if name.len() == 0 {
        -1
    } else if name[name.len() - 1] == 46 {
        name.len() - 1
    } else {
        last_dot(name.drop_last())
    }
}

/// The extension of a file name: what follows the last dot, provided that
/// dot is neither absent nor the leading byte.
pub open spec fn spec_extension(name: Seq<u8>) -> Option<Seq<u8>> {
    let d = last_dot(name);
    if d > 0 {
        Option::Some(name.subrange(d + 1, name.len() as int))
    } else {
        Option::None
    }
}

/// The fixed recognized set: rs, js, py, cpp, java (case-sensitive).
pub open spec fn extension_recognized(name: Seq<u8>) -> bool {
    match spec_extension(name) {
        Option::Some(e) => e == seq![114u8, 115u8] || e == seq![106u8, 115u8] || e == seq![
            112u8,
            121u8,
        ] || e == seq![99u8, 112u8, 112u8] || e == seq![106u8, 97u8, 118u8, 97u8],
        Option::None => false,
    }
}

/// The scan filter accepts the entry: a regular file, under no hidden name,
/// with a recognized extension.
pub open spec fn entry_selected(e: ScanEntry) -> bool {
    &&& e.is_file
    &&& e.segments@.len() > 0
    &&& !path_pruned(e.segments@)
    &&& extension_recognized(e.segments@.last()@)
}

/// The entry contributes to the aggregate: accepted by the filter and
/// readable.
pub open spec fn entry_counted(e: ScanEntry) -> bool {
    entry_selected(e) && e.content is Some
}

/// The aggregate's mathematical tally, with unbounded counts.
pub struct RepoTally {
    pub files: nat,
    pub total: nat,
    pub code: nat,
    pub comment: nat,
    pub blank: nat,
}

/// The empty aggregate.
pub open spec fn repo_zero() -> RepoTally {
    RepoTally { files: 0, total: 0, code: 0, comment: 0, blank: 0 }
}

/// `acc` with one counted file's tally added.
pub open spec fn repo_add(acc: RepoTally, t: LineTally) -> RepoTally {
    RepoTally {
        files: acc.files + 1,
        total: acc.total + t.total,
        code: acc.code + t.code,
        comment: acc.comment + t.comment,
        blank: acc.blank + t.blank,
    }
}

/// The aggregate over a sequence of entries: each counted entry's classifier
/// tally summed in, in order. Sums are commutative, so the order never
/// shows in the result.
pub open spec fn scan_tally(entries: Seq<ScanEntry>) -> RepoTally
    decreases entries.len(),
{
    if entries.len() == 0 {
        repo_zero()
    } else {
        let prev = scan_tally(entries.drop_last());
        let e = entries.last();
        if entry_counted(e) {
            repo_add(prev, classify_tally(e.content.unwrap()@))
        } else {
            prev
        }
    }
}

/// An executable aggregate agrees with a mathematical tally.
pub open spec fn repo_stats_match(r: ComplexityStats, t: RepoTally) -> bool {
    r.file_count == t.files && r.total_lines == t.total && r.code_lines == t.code
        && r.comment_lines == t.comment && r.blank_lines == t.blank
}

/// Conservation law at the aggregate: the class sums equal the line total,
/// each class stays below the total, and the file count never exceeds the
/// number of entries.
pub proof fn lemma_scan_conservation(entries: Seq<ScanEntry>)
    ensures
        scan_tally(entries).total == scan_tally(entries).code + scan_tally(entries).comment
            + scan_tally(entries).blank,
        scan_tally(entries).files <= entries.len(),
    decreases entries.len(),
{
    if entries.len() > 0 {
        lemma_scan_conservation(entries.drop_last());
        let e = entries.last();
        if entry_counted(e) {
            lemma_classify_conservation(e.content.unwrap()@);
        }
    }
}

/// A prefix of the entries never tallies more lines than the whole.
pub proof fn lemma_scan_prefix_le(entries: Seq<ScanEntry>, k: int)
    requires
        0 <= k <= entries.len(),
    ensures
        scan_tally(entries.take(k)).total <= scan_tally(entries).total,
    decreases entries.len(),
{
    if k == entries.len() {
        assert(entries.take(k) =~= entries);
    } else {
        lemma_scan_prefix_le(entries.drop_last(), k);
        assert(entries.drop_last().take(k) =~= entries.take(k));
    }
}

/// Idempotence law: the aggregate is a function of the scanned entries
/// alone, so scanning the same unchanged tree twice yields the same
/// aggregate.
pub proof fn lemma_scan_deterministic(a: Seq<ScanEntry>, b: Seq<ScanEntry>)
    requires
        a == b,
    ensures
        scan_tally(a) == scan_tally(b),
{
}

/// Pruning law: an entry that lies under a hidden name contributes nothing
/// to the aggregate, whatever its extension or content.
pub proof fn lemma_hidden_entry_ignored(entries: Seq<ScanEntry>, e: ScanEntry)
    requires
        path_pruned(e.segments@),
    ensures
        scan_tally(entries.push(e)) == scan_tally(entries),
{
    assert(entries.push(e).drop_last() =~= entries);
    assert(entries.push(e).last() == e);
    assert(!entry_counted(e));
}

/// Extension-filter law: an entry whose name carries no recognized
/// extension contributes nothing to the aggregate, even when readable.
pub proof fn lemma_unrecognized_entry_ignored(entries: Seq<ScanEntry>, e: ScanEntry)
    requires
        e.segments@.len() == 0 || !extension_recognized(e.segments@.last()@),
    ensures
        scan_tally(entries.push(e)) == scan_tally(entries),
{
    assert(entries.push(e).drop_last() =~= entries);
    assert(entries.push(e).last() == e);
    assert(!entry_counted(e));
}

/// Whether `name` begins with a dot.
pub fn is_hidden(name: &[u8]) -> (r: bool)
    ensures
        r == hidden_name(name@),
{
    name.len() > 0 && name[0] == 46
}

/// Whether any path component is hidden.
pub fn path_is_pruned(segments: &Vec<Vec<u8>>) -> (r: bool)
    ensures
        r == path_pruned(segments@),
{
    let n = segments.len();
    let mut k: usize = 0;
    while k < n
        invariant
            k <= n,
            n == segments@.len(),
            forall|m: int| 0 <= m < k ==> !hidden_name((#[trigger] segments@[m])@),
        decreases n - k,
    {
        let s: &Vec<u8> = &segments[k];
        if s.len() > 0 {
            let c = s[0];
            if c == 46 {
                assert(hidden_name(segments@[k as int]@));
                return true;
            }
        }
        k = k + 1;
    }
    false
}

proof fn lemma_last_dot_at(name: Seq<u8>, d: int)
    requires
        0 <= d < name.len(),
        name[d] == 46,
        forall|m: int| d < m < name.len() ==> name[m] != 46,
    ensures
        last_dot(name) == d,
    decreases name.len(),
{
    if d < name.len() - 1 {
        assert(name.drop_last() =~= name.subrange(0, name.len() - 1));
        lemma_last_dot_at(name.drop_last(), d);
    }
}

proof fn lemma_last_dot_none(name: Seq<u8>)
    requires
        forall|m: int| 0 <= m < name.len() ==> name[m] != 46,
    ensures
        last_dot(name) == -1,
    decreases name.len(),
{
    if name.len() > 0 {
        lemma_last_dot_none(name.drop_last());
    }
}

/// Whether the file name carries one of the recognized source extensions.
pub fn has_recognized_extension(name: &[u8]) -> (r: bool)
    ensures
        r == extension_recognized(name@),
{
    let n = name.len();
    let mut dot: Option<usize> = None;
    let mut m: usize = 0;
    while m < n
        invariant
            m <= n,
            n == name@.len(),
            match dot {
                Option::None => forall|q: int| 0 <= q < m ==> name@[q] != 46,
                Option::Some(x) => x < m <= n && name@[x as int] == 46 && forall|q: int|
                    x < q < m ==> name@[q] != 46,
            },
        decreases n - m,
    {
        if name[m] == 46 {
            dot = Some(m);
        }
        m = m + 1;
    }
    match dot {
        None => {
            proof {
                lemma_last_dot_none(name@);
            }
            false
        },
        Some(d) => {
            proof {
                lemma_last_dot_at(name@, d as int);
            }
            if d == 0 {
                false
            } else {
                let ghost ext = name@.subrange(d + 1, n as int);
                proof {
                    assert(spec_extension(name@) == Option::Some(ext));
                    assert(ext.len() == n - d - 1);
                }
                let el = n - d - 1;
                if el == 2 {
                    let a = name[d + 1];
                    let b = name[d + 2];
                    let r = (a == 114 && b == 115) || (a == 106 && b == 115) || (a == 112 && b
                        == 121);
                    proof {
                        if a == 114 && b == 115 {
                            assert(ext =~= seq![114u8, 115u8]);
                        }
                        if a == 106 && b == 115 {
                            assert(ext =~= seq![106u8, 115u8]);
                        }
                        if a == 112 && b == 121 {
                            assert(ext =~= seq![112u8, 121u8]);
                        }
                    }
                    r
                } else if el == 3 {
                    let r = name[d + 1] == 99 && name[d + 2] == 112 && name[d + 3] == 112;
                    proof {
                        if r {
                            assert(ext =~= seq![99u8, 112u8, 112u8]);
                        }
                    }
                    r
                } else if el == 4 {
                    let r = name[d + 1] == 106 && name[d + 2] == 97 && name[d + 3] == 118
                        && name[d + 4] == 97;
                    proof {
                        if r {
                            assert(ext =~= seq![106u8, 97u8, 118u8, 97u8]);
                        }
                    }
                    r
                } else {
                    false
                }
            }
        },
    }
}

/// Whether the scan filter accepts this entry.
pub fn entry_is_selected(e: &ScanEntry) -> (r: bool)
    ensures
        r == entry_selected(*e),
{
    if !e.is_file {
        return false;
    }
    let n = e.segments.len();
    if n == 0 {
        return false;
    }
    if path_is_pruned(&e.segments) {
        return false;
    }
    let name: &Vec<u8> = &e.segments[n - 1];
    has_recognized_extension(name.as_slice())
}

/// The tree scanner. The filter rules are fixed: hidden names pruned, the
/// recognized extension set.
pub struct ComplexityAnalyzer;

impl ComplexityAnalyzer {
    /// A scanner with the fixed filter rules.
    pub fn new() -> (r: ComplexityAnalyzer) {
        ComplexityAnalyzer
    }

    /// Aggregate the line statistics of every counted entry, or `None` when
    /// the total line count would not fit in `usize`.
    pub fn analyze_checked(&self, entries: &Vec<ScanEntry>) -> (r: Option<ComplexityStats>)
        ensures
            match r {
                Option::Some(s) => scan_tally(entries@).total <= usize::MAX && repo_stats_match(
                    s,
                    scan_tally(entries@),
                ),
                Option::None => scan_tally(entries@).total > usize::MAX,
            },
    {
        let n = entries.len();
        let mut files: usize = 0;
        let mut total: usize = 0;
        let mut code: usize = 0;
        let mut comment: usize = 0;
        let mut blank: usize = 0;
        let mut idx: usize = 0;
        while idx < n
            invariant
                idx <= n,
                n == entries@.len(),
                files == scan_tally(entries@.take(idx as int)).files,
                total == scan_tally(entries@.take(idx as int)).total,
                code == scan_tally(entries@.take(idx as int)).code,
                comment == scan_tally(entries@.take(idx as int)).comment,
                blank == scan_tally(entries@.take(idx as int)).blank,
            decreases n - idx,
        {
            let ghost prefix = entries@.take(idx as int);
            let ghost next = entries@.take(idx as int + 1);
            proof {
                assert(next.drop_last() =~= prefix);
                assert(next.last() == entries@[idx as int]);
                lemma_scan_conservation(next);
            }
            let e: &ScanEntry = &entries[idx];
            let selected = entry_is_selected(e);
            if selected {
                match &e.content {
                    Some(c) => {
                        assert(entry_counted(entries@[idx as int]));
                        let fs = classify_bytes(c.as_slice());
                        proof {
                            lemma_classify_conservation(c@);
                        }
                        let nt = match total.checked_add(fs.total) {
                            Some(v) => v,
                            None => {
                                proof {
                                    lemma_scan_prefix_le(entries@, idx as int + 1);
                                }
                                return None;
                            },
                        };
                        total = nt;
                        files = files + 1;
                        code = code + fs.code;
                        comment = comment + fs.comment;
                        blank = blank + fs.blank;
                    },
                    None => {
                        assert(!entry_counted(entries@[idx as int]));
                    },
                }
            } else {
                assert(!entry_counted(entries@[idx as int]));
            }
            idx = idx + 1;
        }
        proof {
            assert(entries@.take(n as int) =~= entries@);
        }
        Some(ComplexityStats { file_count: files, total_lines: total, code_lines: code, comment_lines: comment, blank_lines: blank })
    }

    /// Aggregate the line statistics of every counted entry.
    pub fn analyze(&self, entries: &Vec<ScanEntry>) -> (r: ComplexityStats)
        requires
            scan_tally(entries@).total <= usize::MAX,
        ensures
            repo_stats_match(r, scan_tally(entries@)),
    {
        match self.analyze_checked(entries) {
            Some(s) => s,
            None => vstd::pervasive::unreached(),
        }
    }
}

/// The part-over-whole percentage, truncated; zero when the whole is zero.
pub open spec fn spec_percent(part: int, whole: int) -> int {
    if whole == 0 {
        0
    } else {
        part * 100 / whole
    }
}

impl ComplexityStats {
    /// Percentage of code lines over total lines; zero when there are no
    /// lines.
    pub fn code_percent(&self) -> (r: usize)
        requires
            self.code_lines <= self.total_lines,
        ensures
            r == spec_percent(self.code_lines as int, self.total_lines as int),
            r <= 100,
    {
        percent_of(self.code_lines, self.total_lines)
    }

    /// Percentage of comment lines over total lines; zero when there are no
    /// lines.
    pub fn comment_percent(&self) -> (r: usize)
        requires
            self.comment_lines <= self.total_lines,
        ensures
            r == spec_percent(self.comment_lines as int, self.total_lines as int),
            r <= 100,
    {
        percent_of(self.comment_lines, self.total_lines)
    }
}

/// The truncated percentage of `part` over `whole`; zero when `whole` is
/// zero.
pub fn percent_of(part: usize, whole: usize) -> (r: usize)
    requires
        part <= whole,
    ensures
        r == spec_percent(part as int, whole as int),
        r <= 100,
{
    if whole == 0 {
        0
    } else {
        let q: u128 = (part as u128) * 100 / (whole as u128);
        proof {
            assert(part * 100 / (whole as int) <= 100) by (nonlinear_arith)
                requires
                    0 < whole,
                    0 <= part <= whole,
            ;
        }
        q as usize
    }
}

/// The filled and empty cell counts of a `width`-cell percentage bar.
pub fn bar_widths(percent: usize, width: usize) -> (r: (usize, usize))
    requires
        percent <= 100,
    ensures
        r.0 == percent * width / 100,
        r.0 + r.1 == width,
{
    proof {
        assert((percent as int) * (width as int) / 100 <= width && (percent as int) * (width
            as int) <= 100 * (usize::MAX as int)) by (nonlinear_arith)
            requires
                0 <= percent <= 100,
                0 <= width <= usize::MAX,
        ;
    }
    let filled: u128 = (percent as u128) * (width as u128) / 100;
    let f = filled as usize;
    (f, width - f)
}

} // verus!
