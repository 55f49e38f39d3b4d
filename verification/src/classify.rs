//! The line classifier: splits a file's text into lines, trims each line,
//! and classifies it as code, comment or blank, tracking an open block
//! comment from line to line within the file.
//!
//! The classification is a lexical heuristic with one universal marker pair
//! (`//`, `/*`, `*/`) for every recognized language: markers inside string
//! literals are not recognized and block comments do not nest.

use vstd::prelude::*;
use vstd::string::StringSliceAdditionalSpecFns;

use crate::text::find_byte;
use crate::text::find_byte_from;
use crate::text::lemma_find_byte;
use crate::text::spec_trim;
use crate::text::trim_range;

verus! {

/// Line statistics for one file: every line counts toward `total` and toward
/// exactly one of `code`, `comment` and `blank`.
#[derive(PartialEq, Eq, Structural, Clone, Copy, Debug)]
pub struct FileLineStats {
    pub total: usize,
    pub code: usize,
    pub comment: usize,
    pub blank: usize,
}

/// The classes a single line can take.
#[derive(PartialEq, Eq, Structural, Clone, Copy, Debug)]
pub enum LineClass {
    Blank,
    Comment,
    Code,
}

/// The classifier's mathematical tally, with unbounded counts.
pub struct LineTally {
    pub total: nat,
    pub code: nat,
    pub comment: nat,
    pub blank: nat,
}

/// The trimmed line starts a single-line comment: its first two bytes
/// are `//`.
pub open spec fn starts_line_comment(t: Seq<u8>) -> bool {
    t.len() >= 2 && t[0] == 47 && t[1] == 47
}

/// The trimmed line opens a block comment: its first two bytes are `/*`.
pub open spec fn starts_block_open(t: Seq<u8>) -> bool {
    t.len() >= 2 && t[0] == 47 && t[1] == 42
}

/// The line contains the block-comment close marker `*/` somewhere.
pub open spec fn has_block_close(t: Seq<u8>) -> bool {
    exists|i: int| 0 <= i && i + 1 < t.len() && #[trigger] t[i] == 42 && t[i + 1] == 47
}

/// How one trimmed line is classified, given whether a block comment is
/// open when it starts. A whitespace-only line is blank even inside an open
/// block comment.
pub open spec fn classify_line(t: Seq<u8>, in_block: bool) -> LineClass {
    if t.len() == 0 {
        LineClass::Blank
    } else if in_block {
        LineClass::Comment
    } else if starts_line_comment(t) {
        LineClass::Comment
    } else if starts_block_open(t) {
        LineClass::Comment
    } else {
        LineClass::Code
    }
}

/// Whether a block comment is open after the line. A line that both opens
/// and closes a block comment leaves the state closed; a close marker on a
/// code line is not recognized.
pub open spec fn next_in_block(t: Seq<u8>, in_block: bool) -> bool {
    if t.len() == 0 {
        in_block
    } else if in_block {
        !has_block_close(t)
    } else if starts_line_comment(t) {
        false
    } else if starts_block_open(t) {
        !has_block_close(t)
    } else {
        false
    }
}

/// The empty tally.
pub open spec fn zero_tally() -> LineTally {
    LineTally { total: 0, code: 0, comment: 0, blank: 0 }
}

/// `rest` with one line of class `c` counted in.
pub open spec fn tally_push(c: LineClass, rest: LineTally) -> LineTally {
    LineTally {
        total: rest.total + 1,
        code: rest.code + if c is Code {
            1nat
        } else {
            0nat
        },
        comment: rest.comment + if c is Comment {
            1nat
        } else {
            0nat
        },
        blank: rest.blank + if c is Blank {
            1nat
        } else {
            0nat
        },
    }
}

/// Tally of the lines of `s` from byte position `i` on, entering with
/// block-comment state `in_block`. Lines are split at line feeds; a final
/// line without one still counts; empty text has no lines.
pub open spec fn tally_from(s: Seq<u8>, i: int, in_block: bool) -> LineTally
    decreases s.len() - i,
    via tally_from_decreases
{
    if i < 0 || i >= s.len() {
        zero_tally()
    } else {
        let e = find_byte(s, i, 10);
        let j = if e + 1 <= s.len() {
            e + 1
        } else {
            s.len() as int
        };
        let t = spec_trim(s.subrange(i, e));
        tally_push(classify_line(t, in_block), tally_from(s, j, next_in_block(t, in_block)))
    }
}

#[via_fn]
proof fn tally_from_decreases(s: Seq<u8>, i: int, in_block: bool) {
    if 0 <= i && i < s.len() {
        lemma_find_byte(s, i, 10);
    }
}

/// The classifier's tally for a whole file: all of its lines, starting
/// outside any block comment.
pub open spec fn classify_tally(s: Seq<u8>) -> LineTally {
    tally_from(s, 0, false)
}

/// An executable result agrees with a mathematical tally.
pub open spec fn stats_match(r: FileLineStats, t: LineTally) -> bool {
    r.total == t.total && r.code == t.code && r.comment == t.comment && r.blank == t.blank
}

proof fn lemma_tally_conservation_from(s: Seq<u8>, i: int, in_block: bool)
    ensures
        tally_from(s, i, in_block).total == tally_from(s, i, in_block).code + tally_from(
            s,
            i,
            in_block,
        ).comment + tally_from(s, i, in_block).blank,
    decreases s.len() - i,
{
    if 0 <= i && i < s.len() {
        lemma_find_byte(s, i, 10);
        let e = find_byte(s, i, 10);
        let j = if e + 1 <= s.len() {
            e + 1
        } else {
            s.len() as int
        };
        let t = spec_trim(s.subrange(i, e));
        lemma_tally_conservation_from(s, j, next_in_block(t, in_block));
    }
}

/// Conservation law: every line falls in exactly one class, so for any file
/// text, `code + comment + blank == total`.
pub proof fn lemma_classify_conservation(s: Seq<u8>)
    ensures
        classify_tally(s).total == classify_tally(s).code + classify_tally(s).comment
            + classify_tally(s).blank,
{
    lemma_tally_conservation_from(s, 0, false);
}

/// Blank precedence: a line that trims to nothing is blank whatever the
/// block-comment state, and leaves that state unchanged.
pub proof fn lemma_blank_precedence(line: Seq<u8>, in_block: bool)
    requires
        spec_trim(line).len() == 0,
    ensures
        classify_line(spec_trim(line), in_block) is Blank,
        next_in_block(spec_trim(line), in_block) == in_block,
{
}

/// A line that both opens and closes a block comment counts as a comment
/// and does not leave the block-comment state open.
pub proof fn lemma_same_line_open_close(t: Seq<u8>)
    requires
        starts_block_open(t),
        has_block_close(t),
    ensures
        classify_line(t, false) is Comment,
        !next_in_block(t, false),
{
}

/// The number of lines never exceeds the number of bytes examined.
pub proof fn lemma_tally_total_bound(s: Seq<u8>, i: int, in_block: bool)
    requires
        0 <= i <= s.len(),
    ensures
        tally_from(s, i, in_block).total <= s.len() - i,
    decreases s.len() - i,
{
    if i < s.len() {
        lemma_find_byte(s, i, 10);
        let e = find_byte(s, i, 10);
        let j = if e + 1 <= s.len() {
            e + 1
        } else {
            s.len() as int
        };
        let t = spec_trim(s.subrange(i, e));
        lemma_tally_total_bound(s, j, next_in_block(t, in_block));
    }
}

/// Whether the range `[ts, te)` of `v` contains the close marker `*/`.
fn range_has_block_close(v: &[u8], ts: usize, te: usize) -> (r: bool)
    requires
        ts <= te <= v@.len(),
    ensures
        r == has_block_close(v@.subrange(ts as int, te as int)),
{
    let ghost t = v@.subrange(ts as int, te as int);
    let mut k = ts;
    while te - k > 1
        invariant
            ts <= k <= te,
            te <= v@.len(),
            t == v@.subrange(ts as int, te as int),
            forall|m: int| ts <= m && m + 1 < te && m < k ==> !(#[trigger] v@[m] == 42 && v@[m
                + 1] == 47),
        decreases te - k,
    {
        if v[k] == 42 && v[k + 1] == 47 {
            assert(t[k - ts] == 42 && t[k - ts + 1] == 47);
            return true;
        }
        k = k + 1;
    }
    assert forall|i: int| 0 <= i && i + 1 < t.len() implies !(#[trigger] t[i] == 42 && t[i + 1]
        == 47) by {
        assert(t[i] == v@[ts + i] && t[i + 1] == v@[ts + i + 1]);
    }
    false
}

/// Classify the line occupying `[from, to)` of `v` (before trimming), with
/// block state `in_block` at entry: its class and the state after it.
fn classify_range(v: &[u8], from: usize, to: usize, in_block: bool) -> (r: (LineClass, bool))
    requires
        from <= to <= v@.len(),
    ensures
        r.0 == classify_line(spec_trim(v@.subrange(from as int, to as int)), in_block),
        r.1 == next_in_block(spec_trim(v@.subrange(from as int, to as int)), in_block),
{
    let ghost t = spec_trim(v@.subrange(from as int, to as int));
    let (ts, te) = trim_range(v, from, to);
    assert(v@.subrange(ts as int, te as int) == t);
    if te == ts {
        (LineClass::Blank, in_block)
    } else if in_block {
        let closes = range_has_block_close(v, ts, te);
        (LineClass::Comment, !closes)
    } else if te - ts >= 2 && v[ts] == 47 && v[ts + 1] == 47 {
        assert(starts_line_comment(t));
        (LineClass::Comment, false)
    } else if te - ts >= 2 && v[ts] == 47 && v[ts + 1] == 42 {
        assert(starts_block_open(t));
        let closes = range_has_block_close(v, ts, te);
        (LineClass::Comment, !closes)
    } else {
        assert(!starts_line_comment(t) && !starts_block_open(t));
        (LineClass::Code, false)
    }
}

/// Count and classify every line of `bytes`: a single forward pass.
pub fn classify_bytes(bytes: &[u8]) -> (r: FileLineStats)
    ensures
        stats_match(r, classify_tally(bytes@)),
        r.total == r.code + r.comment + r.blank,
{
    let n = bytes.len();
    let mut i: usize = 0;
    let mut in_block = false;
    let mut total: usize = 0;
    let mut code: usize = 0;
    let mut comment: usize = 0;
    let mut blank: usize = 0;
    proof {
        lemma_tally_total_bound(bytes@, 0, false);
        lemma_classify_conservation(bytes@);
    }
    while i < n
        invariant
            i <= n,
            n == bytes@.len(),
            total + tally_from(bytes@, i as int, in_block).total == classify_tally(bytes@).total,
            code + tally_from(bytes@, i as int, in_block).code == classify_tally(bytes@).code,
            comment + tally_from(bytes@, i as int, in_block).comment == classify_tally(
                bytes@,
            ).comment,
            blank + tally_from(bytes@, i as int, in_block).blank == classify_tally(bytes@).blank,
            classify_tally(bytes@).total <= n,
            classify_tally(bytes@).total == classify_tally(bytes@).code + classify_tally(
                bytes@,
            ).comment + classify_tally(bytes@).blank,
        decreases n - i,
    {
        proof {
            lemma_find_byte(bytes@, i as int, 10);
        }
        let e = find_byte_from(bytes, i, 10);
        let (cls, nb) = classify_range(bytes, i, e, in_block);
        let ghost gt = spec_trim(bytes@.subrange(i as int, e as int));
        let ghost gj: int = if e + 1 <= n {
            e as int + 1
        } else {
            n as int
        };
        proof {
            assert(tally_from(bytes@, i as int, in_block) == tally_push(
                classify_line(gt, in_block),
                tally_from(bytes@, gj, next_in_block(gt, in_block)),
            ));
        }
        total = total + 1;
        match cls {
            LineClass::Code => {
                code = code + 1;
            },
            LineClass::Comment => {
                comment = comment + 1;
            },
            LineClass::Blank => {
                blank = blank + 1;
            },
        }
        in_block = nb;
        i = if e < n {
            e + 1
        } else {
            n
        };
    }
    FileLineStats { total, code, comment, blank }
}

/// Classify the full text of one file, under any line-ending convention:
/// carriage returns before a line feed are trimmed as whitespace.
pub fn analyze_file_complexity(content: &str) -> (r: FileLineStats)
    ensures
        stats_match(r, classify_tally(content.spec_bytes())),
        r.total == r.code + r.comment + r.blank,
{
    classify_bytes(content.as_bytes())
}

} // verus!
