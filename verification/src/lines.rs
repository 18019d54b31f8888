//! Source positions: byte offsets to one-based lines and columns, and paths
//! split the way a debug-info file entry wants them.

use vstd::prelude::*;

use vstd::string::StringSliceAdditionalSpecFns;

use crate::text::owned;
use crate::toolchain::{adjoined, no_question_mark, simple_component};

verus! {

broadcast use vstd::string::group_string_axioms;

/// The byte of a line feed.
pub const NEWLINE: u8 = 10;

/// How many line feeds the first `k` bytes hold.
pub open spec fn newlines_before(b: Seq<u8>, k: int) -> nat
    decreases k,
{
    if k <= 0 {
        0
    } else {
        newlines_before(b, k - 1) + if b[k - 1] == NEWLINE { 1nat } else { 0nat }
    }
}

/// Where the line holding byte `k` starts: just after the last line feed
/// before `k`, or at zero.
pub open spec fn line_start(b: Seq<u8>, k: int) -> int
    decreases k,
{
    if k <= 0 {
        0
    } else if b[k - 1] == NEWLINE {
        k
    } else {
        line_start(b, k - 1)
    }
}

/// An offset clamped to the end of the text.
pub open spec fn clamped(b: Seq<u8>, offset: int) -> int {
    if offset < b.len() { offset } else { b.len() as int }
}

/// One-based line and column of `offset`, counted in bytes, with an offset
/// past the end clamped to the end.
pub open spec fn position(b: Seq<u8>, offset: int) -> (u32, u32) {
    let o = clamped(b, offset);
    ((newlines_before(b, o) + 1) as u32, (o - line_start(b, o) + 1) as u32)
}

/// The start of every line, in order: zero, then one past each line feed.
pub open spec fn line_starts(b: Seq<u8>) -> Seq<usize>
    decreases b.len(),
{
    if b.len() == 0 {
        seq![0usize]
    } else {
        let rest = line_starts(b.drop_last());
        if b.last() == NEWLINE { rest.push(b.len() as usize) } else { rest }
    }
}

/// Where each line of one source file starts, for turning an offset into a
/// line and column. Built once per file rather than scanned per lookup.
pub struct Lines {
    /// Byte offset of the first character of each line, ascending.
    starts: Vec<usize>,
    length: usize,
    text: Ghost<Seq<u8>>,
}

proof fn lemma_newlines_monotone(b: Seq<u8>, i: int, j: int)
    requires
        0 <= i <= j <= b.len(),
    ensures
        newlines_before(b, i) <= newlines_before(b, j),
    decreases j - i,
{
    if i < j {
        lemma_newlines_monotone(b, i, j - 1);
    }
}

proof fn lemma_newlines_prefix(b: Seq<u8>, c: Seq<u8>, k: int)
    requires
        0 <= k <= b.len(),
        k <= c.len(),
        forall|i: int| 0 <= i < k ==> b[i] == c[i],
    ensures
        newlines_before(b, k) == newlines_before(c, k),
    decreases k,
{
    if k > 0 {
        lemma_newlines_prefix(b, c, k - 1);
    }
}

proof fn lemma_line_start_prefix(b: Seq<u8>, c: Seq<u8>, k: int)
    requires
        0 <= k <= b.len(),
        k <= c.len(),
        forall|i: int| 0 <= i < k ==> b[i] == c[i],
    ensures
        line_start(b, k) == line_start(c, k),
    decreases k,
{
    if k > 0 {
        lemma_line_start_prefix(b, c, k - 1);
    }
}

/// What the starts of the lines are: each is zero or follows a line feed,
/// the `j`-th has exactly `j` line feeds before it, and there is one more
/// start than there are line feeds.
proof fn lemma_line_starts(b: Seq<u8>)
    requires
        b.len() <= usize::MAX,
    ensures
        line_starts(b).len() == newlines_before(b, b.len() as int) + 1,
        line_starts(b)[0] == 0,
        forall|j: int|
            0 <= j < line_starts(b).len() ==> {
                let s = #[trigger] line_starts(b)[j] as int;
                &&& 0 <= s <= b.len()
                &&& newlines_before(b, s) == j
                &&& (s == 0 || b[s - 1] == NEWLINE)
            },
        forall|i: int, j: int|
            0 <= i < j < line_starts(b).len() ==> #[trigger] line_starts(b)[i] < #[trigger] line_starts(b)[j],
    decreases b.len(),
{
    if b.len() > 0 {
        let a = b.drop_last();
        lemma_line_starts(a);
        let ra = line_starts(a);
        assert forall|j: int| 0 <= j < ra.len() implies {
            let s = #[trigger] ra[j] as int;
            &&& newlines_before(b, s) == j
            &&& (s == 0 || b[s - 1] == NEWLINE)
        } by {
            let s = ra[j] as int;
            lemma_newlines_prefix(a, b, s);
        }
        lemma_newlines_prefix(a, b, a.len() as int);
        let rb = line_starts(b);
        assert(newlines_before(b, b.len() as int) == newlines_before(b, a.len() as int) + if b.last() == NEWLINE { 1nat } else { 0nat });
        assert(rb == (if b.last() == NEWLINE { ra.push(b.len() as usize) } else { ra }));
        if b.last() == NEWLINE {
            assert(rb == ra.push(b.len() as usize));
            assert forall|i: int, j: int| 0 <= i < j < rb.len() implies #[trigger] rb[i] < #[trigger] rb[j] by {
                if j == rb.len() - 1 {
                    assert(rb[i] == ra[i]);
                    assert(ra[i] <= a.len());
                }
            }
            assert forall|j: int| 0 <= j < rb.len() implies {
                let s = #[trigger] rb[j] as int;
                &&& 0 <= s <= b.len()
                &&& newlines_before(b, s) == j
                &&& (s == 0 || b[s - 1] == NEWLINE)
            } by {
                if j < ra.len() {
                    assert(rb[j] == ra[j]);
                }
            }
        } else {
            assert(rb == ra);
        }
    }
}

/// A line feed before `o`, past the `k`-th, exists when more than `k` of
/// them precede `o`.
proof fn lemma_find_newline(b: Seq<u8>, o: int, k: nat) -> (q: int)
    requires
        0 <= o <= b.len(),
        newlines_before(b, o) > k,
    ensures
        0 <= q < o,
        b[q] == NEWLINE,
        newlines_before(b, q) == k,
    decreases o,
{
    if newlines_before(b, o - 1) > k {
        lemma_find_newline(b, o - 1, k)
    } else {
        o - 1
    }
}

/// With no line feed in `[s, o)` and a line starting at `s`, the line
/// holding `o` starts at `s`.
proof fn lemma_line_start_at(b: Seq<u8>, s: int, o: int)
    requires
        0 <= s <= o <= b.len(),
        s == 0 || b[s - 1] == NEWLINE,
        newlines_before(b, o) == newlines_before(b, s),
    ensures
        line_start(b, o) == s,
    decreases o - s,
{
    if o > s {
        lemma_newlines_monotone(b, s, o - 1);
        assert(b[o - 1] != NEWLINE);
        lemma_line_start_at(b, s, o - 1);
    } else if s > 0 {
        assert(line_start(b, s) == s);
    }
}

impl Lines {
    /// The text's bytes, and the starts agree with them.
    pub closed spec fn wf(&self) -> bool {
        &&& self.starts@ == line_starts(self.text@)
        &&& self.length == self.text@.len()
    }

    /// The bytes of the text these lines were built from.
    pub closed spec fn source(&self) -> Seq<u8> {
        self.text@
    }

    /// The lines of `text`.
    pub fn of(text: &str) -> (lines: Lines)
        ensures
            lines.wf(),
            lines.source() == text.spec_bytes(),
    {
        let bytes = text.as_bytes();
        let mut starts: Vec<usize> = Vec::new();
        starts.push(0);
        let mut i: usize = 0;
        while i < bytes.len()
            invariant
                i <= bytes.len(),
                starts@ == line_starts(bytes@.subrange(0, i as int)),
            decreases bytes.len() - i,
        {
            let ghost before = bytes@.subrange(0, i as int);
            let ghost after = bytes@.subrange(0, i as int + 1);
            assert(after.drop_last() =~= before);
            if bytes[i] == NEWLINE {
                starts.push(i + 1);
            }
            i = i + 1;
        }
        assert(bytes@.subrange(0, bytes.len() as int) =~= bytes@);
        Lines { starts, length: bytes.len(), text: Ghost(bytes@) }
    }

    /// One-based line and column for the byte at `offset`, an offset past the
    /// end clamped to the end. Columns count bytes.
    pub fn locate(&self, offset: u32) -> (at: (u32, u32))
        requires
            self.wf(),
        ensures
            at == position(self.source(), offset as int),
    {
        let ghost b = self.text@;
        proof {
            lemma_line_starts(b);
        }
        let o: usize = if (offset as usize) < self.length { offset as usize } else { self.length };
        // Binary search for how many line starts are at or before `o`.
        let mut lo: usize = 1;
        let mut hi: usize = self.starts.len();
        while lo < hi
            invariant
                self.wf(),
                b == self.text@,
                1 <= lo <= hi <= self.starts.len(),
                o <= b.len(),
                self.starts[lo - 1] <= o,
                hi < self.starts.len() ==> self.starts[hi as int] > o,
                forall|i: int, j: int|
                    0 <= i < j < line_starts(b).len() ==> #[trigger] line_starts(b)[i] < #[trigger] line_starts(b)[j],
            decreases hi - lo,
        {
            let mid = lo + (hi - lo) / 2;
            if self.starts[mid] <= o {
                lo = mid + 1;
            } else {
                hi = mid;
            }
        }
        let line = lo;
        let start = self.starts[line - 1];
        proof {
            let ls = line_starts(b);
            let s = start as int;
            assert(newlines_before(b, s) == line - 1);
            lemma_newlines_monotone(b, s, o as int);
            if newlines_before(b, o as int) > line - 1 {
                let q = lemma_find_newline(b, o as int, (line - 1) as nat);
                // The line after that line feed starts at or before `o`.
                assert(line < ls.len()) by {
                    lemma_newlines_monotone(b, q + 1, b.len() as int);
                }
                let t = ls[line as int] as int;
                assert(newlines_before(b, t) == line);
                assert(newlines_before(b, q + 1) == line);
                if t > q + 1 {
                    lemma_newlines_monotone(b, q + 1, t - 1);
                    assert(b[t - 1] == NEWLINE);
                    assert(newlines_before(b, t) > newlines_before(b, q + 1));
                } else if t < q + 1 {
                    lemma_newlines_monotone(b, t, q);
                    assert(newlines_before(b, q + 1) > newlines_before(b, t));
                }
                assert(false);
            }
            lemma_line_start_at(b, s, o as int);
        }
        ((line as u32), (((o - start) as u64 + 1) as u32))
    }
}

/// The one-based line `offset` starts on, counting line feeds before it;
/// `0` when there is no source to count in, or when the count does not fit.
pub open spec fn line_number(b: Seq<u8>, offset: int) -> u32 {
    if b.len() == 0 {
        0
    } else {
        let count = newlines_before(b, clamped(b, offset)) + 1;
        if count <= u32::MAX { count as u32 } else { 0 }
    }
}

/// The one-based line `at` starts on, or 0 when there is no source to count in.
///
/// Counting newlines rather than keeping a table: an `assert` is rare, and
/// this runs once per one.
pub fn line_of(source: &str, at: u32) -> (line: u32)
    ensures
        line == line_number(source.spec_bytes(), at as int),
{
    let bytes = source.as_bytes();
    if bytes.len() == 0 {
        return 0;
    }
    let offset: usize = if (at as usize) < bytes.len() { at as usize } else { bytes.len() };
    let mut count: usize = 0;
    let mut i: usize = 0;
    while i < offset
        invariant
            offset <= bytes.len(),
            i <= offset,
            count == newlines_before(bytes@, i as int),
            count <= i,
        decreases offset - i,
    {
        if bytes[i] == NEWLINE {
            count = count + 1;
        }
        i = i + 1;
    }
    if count < 0xffff_ffff {
        (count + 1) as u32
    } else {
        0
    }
}

/// The first character of a file is line one, column one.
pub proof fn law_first_character_is_line_one_column_one(b: Seq<u8>)
    ensures
        position(b, 0) == (1u32, 1u32),
{
}

/// `line_of` and `Lines::locate` agree on the line of any offset into a
/// non-empty file, whenever the line number fits.
pub proof fn law_line_of_agrees_with_locate(b: Seq<u8>, offset: int)
    requires
        b.len() > 0,
        newlines_before(b, clamped(b, offset)) < u32::MAX,
    ensures
        line_number(b, offset) == position(b, offset).0,
{
}

/// An offset past the end lands on the last line.
pub proof fn law_past_the_end_is_the_last_line(b: Seq<u8>, offset: int)
    requires
        offset >= b.len(),
    ensures
        position(b, offset) == position(b, b.len() as int),
{
}

// ---------------------------------------------------------------------------
// Paths
// ---------------------------------------------------------------------------

/// A path of one ordinary component: one that every platform reads as a
/// single file name.
pub open spec fn bare_name(path: Seq<char>) -> bool {
    simple_component(path) && path != "."@ && path != ".."@
}

/// The position of the last `/` in `p`, or -1 when it has none.
pub open spec fn last_slash(p: Seq<char>) -> int
    decreases p.len(),
{
    if p.len() == 0 {
        -1
    } else if p.last() == '/' {
        p.len() - 1
    } else {
        last_slash(p.drop_last())
    }
}

/// Where the last `/` is: at a `/`, with none after it.
pub proof fn lemma_last_slash(p: Seq<char>)
    ensures
        -1 <= last_slash(p) < p.len(),
        last_slash(p) >= 0 ==> p[last_slash(p)] == '/',
        forall|i: int| last_slash(p) < i < p.len() ==> p[i] != '/',
    decreases p.len(),
{
    if p.len() > 0 && p.last() != '/' {
        lemma_last_slash(p.drop_last());
        assert forall|i: int| last_slash(p) < i < p.len() implies p[i] != '/' by {
            if i < p.len() - 1 {
                assert(p.drop_last()[i] == p[i]);
            }
        }
        if last_slash(p) >= 0 {
            assert(p.drop_last()[last_slash(p)] == p[last_slash(p)]);
        }
    }
}

/// A relative path of bare names joined by single `/`s: `a`, `a/b`.
pub open spec fn name_run(d: Seq<char>) -> bool
    decreases d.len(),
{
    if last_slash(d) < 0 {
        bare_name(d)
    } else {
        proof {
            lemma_last_slash(d);
        }
        bare_name(d.subrange(last_slash(d) + 1, d.len() as int)) && name_run(d.subrange(0, last_slash(d)))
    }
}

/// A path of bare names joined by single `/`s, with more than one of them
/// or with a leading `/`: `/n`, `a/n`, `/a/b/n`. Every platform reads its
/// last name as its final component and what comes before the last `/` as
/// its parent, `/` being a separator everywhere.
pub open spec fn slashed(p: Seq<char>) -> bool {
    let k = last_slash(p);
    &&& k >= 0
    &&& bare_name(p.subrange(k + 1, p.len() as int))
    &&& (k == 0 || name_run(p.subrange(0, k)) || (p[0] == '/' && k > 1 && name_run(p.subrange(1, k))))
}

/// The last name of a path: what follows its last `/`.
pub open spec fn last_component(p: Seq<char>) -> Seq<char> {
    p.subrange(last_slash(p) + 1, p.len() as int)
}

/// What comes before a path's last `/`: `/` itself when that is all.
pub open spec fn directory_of(p: Seq<char>) -> Seq<char> {
    if last_slash(p) == 0 { "/"@ } else { p.subrange(0, last_slash(p)) }
}

/// A path whose last component is `..`: `..` itself, or anything then
/// `/..`, with no `?` (so no verbatim prefix, under which `/` would not
/// separate).
pub open spec fn ends_in_parent(p: Seq<char>) -> bool {
    &&& no_question_mark(p)
    &&& p.len() >= 2
    &&& p[p.len() - 1] == '.'
    &&& p[p.len() - 2] == '.'
    &&& (p.len() == 2 || p[p.len() - 3] == '/')
}

/// `std::path::Path::file_name`, as text. Its documentation says it is the
/// path's final component when that is a normal one. Claimed: a bare name is
/// its own final component, and a path of bare names joined by `/` ends in
/// the name after its last `/`, `/` being a separator on every platform; and,
/// as the documentation shows, a path ending in `..` and the root `/` have
/// none. Nothing is claimed of other paths, whose components depend on the
/// platform.
#[verifier::external_body]
fn file_name_of(path: &str) -> (name: Option<String>)
    ensures
        bare_name(path@) ==> text_of(name) == Some(path@),
        slashed(path@) ==> text_of(name) == Some(last_component(path@)),
        ends_in_parent(path@) || path@ == "/"@ ==> name is None,
{
    std::path::Path::new(path).file_name().map(|n| n.to_string_lossy().into_owned())
}

/// `std::path::Path::parent`, as text. Its documentation says it is the path
/// without its final component, and that a relative path of one component has
/// the empty path as its parent. Claimed: that empty parent for a bare name,
/// and for a path of bare names joined by `/` what comes before its last `/`
/// (the root `/` when that is all); and, as the documentation shows, the root
/// `/` has none. Nothing is claimed of other paths, whose components depend
/// on the platform.
#[verifier::external_body]
fn parent_of(path: &str) -> (parent: Option<String>)
    ensures
        bare_name(path@) ==> text_of(parent) == Some(Seq::<char>::empty()),
        slashed(path@) ==> text_of(parent) == Some(directory_of(path@)),
        path@ == "/"@ ==> parent is None,
{
    std::path::Path::new(path).parent().map(|p| p.to_string_lossy().into_owned())
}

/// A path split into file name and directory, given what the platform says
/// its final component and its parent are: a path with no file name is its
/// own name, and a path with no parent, or an empty one, is in `.`.
pub open spec fn split_spec(path: Seq<char>, file_name: Option<Seq<char>>, parent: Option<Seq<char>>) -> (Seq<char>, Seq<char>) {
    let name = match file_name {
        Some(n) => n,
        None => path,
    };
    let directory = match parent {
        Some(p) => if p.len() > 0 { p } else { "."@ },
        None => "."@,
    };
    (name, directory)
}

/// The text of an optional string.
pub open spec fn text_of(s: Option<String>) -> Option<Seq<char>> {
    match s {
        Some(t) => Some(t@),
        None => None,
    }
}

/// The split, from the path and what the platform said of it.
pub fn split_parts(path: &str, file_name: Option<String>, parent: Option<String>) -> (parts: (String, String))
    ensures
        (parts.0@, parts.1@) == split_spec(path@, text_of(file_name), text_of(parent)),
{
    let name = match file_name {
        Some(n) => n,
        None => owned(path),
    };
    let directory = match parent {
        Some(p) => if p.as_str().unicode_len() > 0 { p } else { owned(".") },
        None => owned("."),
    };
    (name, directory)
}

/// A path split the way a debug-info file entry wants it: file name, then
/// containing directory. The directory is never empty: a bare file name is in
/// `.`. A path with no file name is its own name.
pub fn split(path: &str) -> (parts: (String, String))
    ensures
        parts.1@.len() > 0,
        bare_name(path@) ==> parts.0@ == path@ && parts.1@ == "."@,
        slashed(path@) ==> parts.0@ == last_component(path@) && parts.1@ == directory_of(path@),
        slashed(path@) ==> adjoined(parts.1@, parts.0@, path@),
        ends_in_parent(path@) ==> parts.0@ == path@,
        path@ == "/"@ ==> parts.0@ == "/"@ && parts.1@ == "."@,
{
    let parts = split_parts(path, file_name_of(path), parent_of(path));
    proof {
        reveal_strlit(".");
        reveal_strlit("/");
        if slashed(path@) {
            let p = path@;
            let k = last_slash(p);
            lemma_last_slash(p);
            if k == 0 {
                assert(p =~= "/"@ + last_component(p));
            } else {
                assert(p =~= directory_of(p) + seq!['/'] + last_component(p));
            }
        }
    }
    parts
}

} // verus!
