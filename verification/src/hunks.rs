//! The line structure of file contents and the hunk headers of unified diffs.
use vstd::prelude::*;
use crate::text::{chars_of, parse_usize, parsed_usize, is_space, space, string_from};
use crate::error::Refusal;

verus! {

/// The number of newline bytes in `b`.
pub open spec fn newlines(b: Seq<u8>) -> int
    decreases b.len(),
{
    if b.len() == 0 {
        0
    } else {
        newlines(b.drop_last()) + if b.last() == 10u8 { 1int } else { 0int }
    }
}

proof fn lemma_newlines_bound(b: Seq<u8>)
    ensures
        0 <= newlines(b) <= b.len(),
    decreases b.len(),
{
    if b.len() > 0 {
        lemma_newlines_bound(b.drop_last());
    }
}

/// The number of newline bytes in `b`.
pub fn count_newlines(b: &Vec<u8>) -> (r: usize)
    ensures
        r == newlines(b@),
{
    let mut n: usize = 0;
    let mut i: usize = 0;
    while i < b.len()
        invariant
            i <= b.len(),
            n == newlines(b@.take(i as int)),
            n <= i,
        decreases b.len() - i,
    {
        assert(b@.take(i + 1).drop_last() =~= b@.take(i as int));
        if b[i] == 10u8 {
            n = n + 1;
        }
        i = i + 1;
    }
    assert(b@.take(i as int) =~= b@);
    n
}

/// The index of the first `c` in `s`, or its length where there is none.
pub open spec fn first_of(s: Seq<char>, c: char) -> int
    decreases s.len(),
{
    if s.len() == 0 {
        0
    } else if s[0] == c {
        0
    } else {
        1 + first_of(s.drop_first(), c)
    }
}

proof fn lemma_first_of(s: Seq<char>, c: char, i: int)
    requires
        0 <= i <= s.len(),
        forall|j: int| 0 <= j < i ==> s[j] != c,
        i == s.len() || s[i] == c,
    ensures
        first_of(s, c) == i,
    decreases i,
{
    if i > 0 {
        lemma_first_of(s.drop_first(), c, i - 1);
    }
}

/// The index of the first `c` in `s`, or its length.
pub fn find_char(s: &Vec<char>, c: char) -> (r: usize)
    ensures
        r == first_of(s@, c),
        r <= s@.len(),
{
    let mut i: usize = 0;
    while i < s.len()
        invariant
            i <= s@.len(),
            forall|j: int| 0 <= j < i ==> s@[j] != c,
        decreases s.len() - i,
    {
        if s[i] == c {
            proof {
                lemma_first_of(s@, c, i as int);
            }
            return i;
        }
        i = i + 1;
    }
    proof {
        lemma_first_of(s@, c, i as int);
    }
    i
}

/// The start and count of a hunk range such as `-12,3`: the first character is a sign,
/// the count defaults to one, and the 1-based start of a non-empty range becomes 0-based.
pub open spec fn hunk_range(s: Seq<char>) -> Option<(usize, usize)> {
    if s.len() == 0 {
        None
    } else {
        let rest = s.drop_first();
        let k = first_of(rest, ',');
        let a = if k < rest.len() { rest.take(k) } else { rest };
        let b = if k < rest.len() { rest.skip(k + 1) } else { seq!['1'] };
        match (parsed_usize(a), parsed_usize(b)) {
            (Some(start), Some(count)) => Some((
                if count == 0 { start } else if start == 0 { 0usize } else { (start - 1) as usize },
                count,
            )),
            _ => None,
        }
    }
}

/// Reads a hunk range such as `+4,2` into its 0-based start and its count.
pub fn range(s: &Vec<char>) -> (r: Result<(usize, usize), Refusal>)
    ensures
        r matches Ok(x) ==> hunk_range(s@) == Some(x),
        r matches Err(e) ==> hunk_range(s@) is None && e is InvalidHunk,
{
    if s.len() == 0 {
        return Err(Refusal::InvalidHunk);
    }
    let mut rest: Vec<char> = Vec::new();
    let mut i: usize = 1;
    while i < s.len()
        invariant
            1 <= i <= s@.len(),
            rest@ == s@.subrange(1, i as int),
        decreases s.len() - i,
    {
        rest.push(s[i]);
        i = i + 1;
    }
    assert(rest@ =~= s@.drop_first());
    let k = find_char(&rest, ',');
    let mut a: Vec<char> = Vec::new();
    let mut b: Vec<char> = Vec::new();
    let mut j: usize = 0;
    while j < rest.len()
        invariant
            j <= rest@.len(),
            k <= rest@.len(),
            a@ == rest@.take(if j < k { j as int } else { k as int }),
            b@ == (if j <= k { Seq::<char>::empty() } else { rest@.subrange(k + 1, j as int) }),
        decreases rest.len() - j,
    {
        if j < k {
            a.push(rest[j]);
            assert(a@ =~= rest@.take(j + 1));
        } else if j > k {
            b.push(rest[j]);
            assert(b@ =~= rest@.subrange(k + 1, j + 1));
        } else {
            assert(b@ =~= rest@.subrange(k + 1, j + 1));
        }
        j = j + 1;
    }
    if k == rest.len() {
        assert(a@ =~= rest@);
        b.push('1');
        assert(b@ =~= seq!['1']);
    } else {
        assert(b@ =~= rest@.skip(k + 1));
    }
    match (parse_usize(&a), parse_usize(&b)) {
        (Some(start), Some(count)) => {
            let first = if count == 0 { start } else if start == 0 { 0 } else { start - 1 };
            Ok((first, count))
        },
        _ => Err(Refusal::InvalidHunk),
    }
}

/// Where the line that starts at `i` ends: at the next newline, or at the end of `s`.
pub open spec fn line_end(s: Seq<char>, i: int) -> int
    decreases s.len() - i,
{
    if i >= s.len() {
        s.len() as int
    } else if s[i] == '\n' {
        i
    } else {
        line_end(s, i + 1)
    }
}

proof fn lemma_line_end(s: Seq<char>, i: int)
    requires
        0 <= i,
    ensures
        i <= line_end(s, i) || i > s.len(),
        line_end(s, i) <= s.len(),
        i <= s.len() ==> i <= line_end(s, i),
    decreases s.len() - i,
{
    if i < s.len() && s[i] != '\n' {
        lemma_line_end(s, i + 1);
    }
}

/// The line from `i` to `e`, without the carriage return of a `\r\n` ending.
pub open spec fn line_text(s: Seq<char>, i: int, e: int) -> Seq<char> {
    if e < s.len() && e > i && s[e - 1] == '\r' {
        s.subrange(i, e - 1)
    } else {
        s.subrange(i, e)
    }
}

/// A hunk header line starts with `@@ `.
pub open spec fn is_header(l: Seq<char>) -> bool {
    l.len() >= 3 && l[0] == '@' && l[1] == '@' && l[2] == ' '
}

/// The first position from `i` on that is not whitespace.
pub open spec fn skip_space(l: Seq<char>, i: int) -> int
    decreases l.len() - i,
{
    if i >= l.len() {
        l.len() as int
    } else if is_space(l[i]) {
        skip_space(l, i + 1)
    } else {
        i
    }
}

/// The first position from `i` on that is whitespace.
pub open spec fn word_end(l: Seq<char>, i: int) -> int
    decreases l.len() - i,
{
    if i >= l.len() {
        l.len() as int
    } else if is_space(l[i]) {
        i
    } else {
        word_end(l, i + 1)
    }
}

pub proof fn lemma_scan(l: Seq<char>, i: int)
    requires
        0 <= i <= l.len(),
    ensures
        i <= skip_space(l, i) <= l.len(),
        i <= word_end(l, i) <= l.len(),
        skip_space(l, i) < l.len() ==> word_end(l, skip_space(l, i)) > skip_space(l, i),
    decreases l.len() - i,
{
    if i < l.len() {
        lemma_scan(l, i + 1);
    }
}

/// The bounds of word `n` (from 0) of `l` after position `i`, words being separated by
/// whitespace as `str::split_whitespace` separates them.
pub open spec fn word(l: Seq<char>, i: int, n: nat) -> Option<(int, int)>
    decreases n,
{
    let a = skip_space(l, i);
    if a >= l.len() {
        None
    } else if n == 0 {
        Some((a, word_end(l, a)))
    } else {
        word(l, word_end(l, a), (n - 1) as nat)
    }
}

/// A hunk header's old and new ranges: its second and third words.
pub struct HunkView {
    pub label: Seq<char>,
    pub old: (usize, usize),
    pub new: (usize, usize),
}

/// The ranges that header `l` gives, if it is well formed.
pub open spec fn header_ranges(l: Seq<char>) -> Option<((usize, usize), (usize, usize))> {
    match (word(l, 0, 1), word(l, 0, 2)) {
        (Some((a1, e1)), Some((a2, e2))) => match (hunk_range(l.subrange(a1, e1)), hunk_range(l.subrange(a2, e2))) {
            (Some(x), Some(y)) => Some((x, y)),
            _ => None,
        },
        _ => None,
    }
}

/// The hunks that the lines of `s` from `i` on give, if every header is well formed.
pub open spec fn hunks_from(s: Seq<char>, i: int) -> Option<Seq<HunkView>>
    decreases s.len() + 1 - i,
    via hunks_from_decreases
{
    if i >= s.len() || i < 0 {
        Some(seq![])
    } else {
        let e = line_end(s, i);
        let l = line_text(s, i, e);
        let rest = hunks_from(s, e + 1);
        if is_header(l) {
            match (header_ranges(l), rest) {
                (Some((x, y)), Some(r)) => Some(seq![HunkView { label: l, old: x, new: y }] + r),
                _ => None,
            }
        } else {
            rest
        }
    }
}

#[via_fn]
proof fn hunks_from_decreases(s: Seq<char>, i: int) {
    if 0 <= i < s.len() {
        lemma_line_end(s, i);
    }
}

/// A hunk header of a diff, with its old and new ranges as 0-based starts and counts.
pub struct Hunk {
    pub label: String,
    pub old: (usize, usize),
    pub new: (usize, usize),
}

impl View for Hunk {
    type V = HunkView;

    open spec fn view(&self) -> HunkView {
        HunkView { label: self.label@, old: self.old, new: self.new }
    }
}

pub open spec fn prepend(a: Seq<HunkView>, b: Option<Seq<HunkView>>) -> Option<Seq<HunkView>> {
    match b {
        Some(b) => Some(a + b),
        None => None,
    }
}

fn line_end_at(s: &Vec<char>, i: usize) -> (e: usize)
    requires
        i <= s@.len(),
    ensures
        e == line_end(s@, i as int),
        i <= e <= s@.len(),
{
    let mut e = i;
    while e < s.len() && s[e] != '\n'
        invariant
            i <= e <= s@.len(),
            line_end(s@, i as int) == line_end(s@, e as int),
        decreases s.len() - e,
    {
        e = e + 1;
    }
    e
}

pub(crate) fn skip_space_at(l: &Vec<char>, i: usize) -> (r: usize)
    requires
        i <= l@.len(),
    ensures
        r == skip_space(l@, i as int),
{
    let mut k = i;
    while k < l.len() && space(l[k])
        invariant
            i <= k <= l@.len(),
            skip_space(l@, i as int) == skip_space(l@, k as int),
        decreases l.len() - k,
    {
        k = k + 1;
    }
    k
}

pub(crate) fn word_end_at(l: &Vec<char>, i: usize) -> (r: usize)
    requires
        i <= l@.len(),
    ensures
        r == word_end(l@, i as int),
{
    let mut k = i;
    while k < l.len() && !space(l[k])
        invariant
            i <= k <= l@.len(),
            word_end(l@, i as int) == word_end(l@, k as int),
        decreases l.len() - k,
    {
        k = k + 1;
    }
    k
}

pub(crate) fn word_at(l: &Vec<char>, i: usize, n: usize) -> (r: Option<(usize, usize)>)
    requires
        i <= l@.len(),
    ensures
        r matches Some((a, e)) ==> word(l@, i as int, n as nat) == Some((a as int, e as int)) && a <= e <= l@.len(),
        r is None ==> word(l@, i as int, n as nat) is None,
    decreases n,
{
    proof {
        lemma_scan(l@, i as int);
    }
    let a = skip_space_at(l, i);
    if a >= l.len() {
        return None;
    }
    let e = word_end_at(l, a);
    proof {
        lemma_scan(l@, a as int);
    }
    if n == 0 {
        Some((a, e))
    } else {
        word_at(l, e, n - 1)
    }
}

pub(crate) fn sub_chars(v: &Vec<char>, lo: usize, hi: usize) -> (r: Vec<char>)
    requires
        lo <= hi <= v@.len(),
    ensures
        r@ == v@.subrange(lo as int, hi as int),
{
    let mut r: Vec<char> = Vec::new();
    let mut k = lo;
    while k < hi
        invariant
            lo <= k <= hi,
            hi <= v@.len(),
            r@ == v@.subrange(lo as int, k as int),
        decreases hi - k,
    {
        r.push(v[k]);
        k = k + 1;
    }
    r
}

/// The hunk headers of a unified diff, in order.
pub fn hunks(text: &str) -> (r: Result<Vec<Hunk>, Refusal>)
    ensures
        r matches Ok(v) ==> hunks_from(text@, 0) == Some(v@.map_values(|h: Hunk| h@)),
        r matches Err(e) ==> hunks_from(text@, 0) is None && e is InvalidHunk,
{
    let s = chars_of(text);
    let mut out: Vec<Hunk> = Vec::new();
    let mut i: usize = 0;
    while i < s.len()
        invariant
            s@ == text@,
            i <= s@.len(),
            hunks_from(s@, 0) == prepend(out@.map_values(|h: Hunk| h@), hunks_from(s@, i as int)),
        decreases s.len() - i,
    {
        let e = line_end_at(&s, i);
        let stop = if e < s.len() && e > i && s[e - 1] == '\r' { e - 1 } else { e };
        let line = sub_chars(&s, i, stop);
        assert(line@ == line_text(s@, i as int, e as int));
        let ghost rest = hunks_from(s@, e + 1);
        assert(hunks_from(s@, i as int) == if is_header(line@) {
            match (header_ranges(line@), rest) {
                (Some((x, y)), Some(r)) => Some(seq![HunkView { label: line@, old: x, new: y }] + r),
                _ => None,
            }
        } else {
            rest
        });
        if line.len() >= 3 && line[0] == '@' && line[1] == '@' && line[2] == ' ' {
            let w1 = word_at(&line, 0, 1);
            let w2 = word_at(&line, 0, 2);
            let (a1, e1, a2, e2) = match (w1, w2) {
                (Some((a1, e1)), Some((a2, e2))) => (a1, e1, a2, e2),
                _ => {
                    return Err(Refusal::InvalidHunk);
                },
            };
            let old = match range(&sub_chars(&line, a1, e1)) {
                Ok(x) => x,
                Err(err) => {
                    return Err(err);
                },
            };
            let new = match range(&sub_chars(&line, a2, e2)) {
                Ok(x) => x,
                Err(err) => {
                    return Err(err);
                },
            };
            let ghost before = out@.map_values(|h: Hunk| h@);
            let h = Hunk { label: string_from(&line), old, new };
            out.push(h);
            assert(out@.map_values(|h: Hunk| h@) =~= before + seq![HunkView { label: line@, old, new }]);
            proof {
                match rest {
                    Some(r) => {
                        assert(before + (seq![HunkView { label: line@, old, new }] + r) =~= out@.map_values(|h: Hunk| h@) + r);
                    },
                    None => {},
                }
            }
        }
        i = if e < s.len() { e + 1 } else { e };
    }
    Ok(out)
}

/// Where the piece of `b` that starts at `i` ends: just after the next newline, or at the
/// end of `b`. Pieces are what `split_inclusive(|x| *x == b'\n')` cuts.
pub open spec fn piece_end(b: Seq<u8>, i: int) -> int
    decreases b.len() - i,
{
    if i >= b.len() {
        b.len() as int
    } else if b[i] == 10u8 {
        i + 1
    } else {
        piece_end(b, i + 1)
    }
}

proof fn lemma_piece_end(b: Seq<u8>, i: int)
    requires
        0 <= i < b.len(),
    ensures
        i < piece_end(b, i) <= b.len(),
    decreases b.len() - i,
{
    if b[i] != 10u8 {
        if i + 1 < b.len() {
            lemma_piece_end(b, i + 1);
        } else {
            assert(piece_end(b, i + 1) == b.len());
        }
    }
}

/// Where piece `k` of `b` starts; `k` may be the number of pieces, which starts at the end.
pub open spec fn piece_start(b: Seq<u8>, k: nat) -> Option<int>
    decreases k,
{
    if k == 0 {
        Some(0)
    } else {
        match piece_start(b, (k - 1) as nat) {
            Some(x) => if x < b.len() { Some(piece_end(b, x)) } else { None },
            None => None,
        }
    }
}

proof fn lemma_piece_start(b: Seq<u8>, j: nat, k: nat)
    requires
        j <= k,
        piece_start(b, k) is Some,
    ensures
        piece_start(b, j) is Some,
        0 <= piece_start(b, j).unwrap() <= piece_start(b, k).unwrap() <= b.len(),
    decreases k,
{
    if k > 0 {
        lemma_piece_start(b, (k - 1) as nat, (k - 1) as nat);
        let x = piece_start(b, (k - 1) as nat).unwrap();
        lemma_piece_end(b, x);
        if j < k {
            lemma_piece_start(b, j, (k - 1) as nat);
        }
    }
}

fn piece_end_at(b: &Vec<u8>, i: usize) -> (e: usize)
    requires
        i < b@.len(),
    ensures
        e == piece_end(b@, i as int),
{
    let mut k = i;
    while k < b.len() && b[k] != 10u8
        invariant
            i <= k <= b@.len(),
            piece_end(b@, i as int) == piece_end(b@, k as int),
        decreases b.len() - k,
    {
        k = k + 1;
    }
    if k < b.len() {
        k + 1
    } else {
        k
    }
}

/// Where piece `k` of `b` starts, if `b` has that many pieces.
pub fn piece_offset(b: &Vec<u8>, k: usize) -> (r: Option<usize>)
    ensures
        r matches Some(p) ==> piece_start(b@, k as nat) == Some(p as int),
        r is None ==> piece_start(b@, k as nat) is None,
{
    let mut pos: usize = 0;
    let mut j: usize = 0;
    while j < k
        invariant
            j <= k,
            piece_start(b@, j as nat) == Some(pos as int),
            pos <= b@.len(),
        decreases k - j,
    {
        if pos >= b.len() {
            proof {
                lemma_none_after(b@, (j + 1) as nat, k as nat);
            }
            return None;
        }
        proof {
            lemma_piece_end(b@, pos as int);
        }
        pos = piece_end_at(b, pos);
        j = j + 1;
    }
    Some(pos)
}

proof fn lemma_none_after(b: Seq<u8>, j: nat, k: nat)
    requires
        j <= k,
        piece_start(b, j) is None,
    ensures
        piece_start(b, k) is None,
    decreases k,
{
    if j < k {
        lemma_none_after(b, j, (k - 1) as nat);
    }
}

/// The file contents that undo one hunk: the new contents with the hunk's new lines
/// replaced by its old lines.
pub open spec fn undo_hunk(b: Seq<u8>, r: Seq<u8>, h: HunkView) -> Option<Seq<u8>> {
    let (bs, bn) = h.old;
    let (rs, rn) = h.new;
    if bs + bn > usize::MAX || rs + rn > usize::MAX {
        None
    } else {
        match (piece_start(r, rs as nat), piece_start(b, bs as nat), piece_start(b, (bs + bn) as nat), piece_start(r, (rs + rn) as nat)) {
            (Some(a), Some(c), Some(d), Some(e)) => Some(r.take(a) + b.subrange(c, d) + r.skip(e)),
            _ => None,
        }
    }
}

fn push_range(out: &mut Vec<u8>, src: &Vec<u8>, lo: usize, hi: usize)
    requires
        lo <= hi <= src@.len(),
    ensures
        final(out)@ == old(out)@ + src@.subrange(lo as int, hi as int),
{
    let mut k = lo;
    while k < hi
        invariant
            lo <= k <= hi,
            hi <= src@.len(),
            out@ == old(out)@ + src@.subrange(lo as int, k as int),
        decreases hi - k,
    {
        out.push(src[k]);
        assert(out@ =~= old(out)@ + src@.subrange(lo as int, k + 1));
        k = k + 1;
    }
}

/// The contents of the new file `r` with hunk `h` undone, taking its old lines from `b`.
pub fn undo(b: &Vec<u8>, r: &Vec<u8>, h: &Hunk) -> (x: Result<Vec<u8>, Refusal>)
    ensures
        x matches Ok(v) ==> undo_hunk(b@, r@, h@) == Some(v@),
        x matches Err(e) ==> undo_hunk(b@, r@, h@) is None && e is InvalidHunk,
{
    let (bs, bn) = h.old;
    let (rs, rn) = h.new;
    if bn > usize::MAX - bs || rn > usize::MAX - rs {
        return Err(Refusal::InvalidHunk);
    }
    let a = piece_offset(r, rs);
    let c = piece_offset(b, bs);
    let kb = bs + bn;
    let kr = rs + rn;
    let d = piece_offset(b, kb);
    let e = piece_offset(r, kr);
    match (a, c, d, e) {
        (Some(a), Some(c), Some(d), Some(e)) => {
            assert(piece_start(b@, (bs + bn) as nat) == Some(d as int));
            assert(piece_start(r@, (rs + rn) as nat) == Some(e as int));
            assert(piece_start(b@, bs as nat) == Some(c as int));
            assert(piece_start(r@, rs as nat) == Some(a as int));
            proof {
                lemma_piece_start(b@, bs as nat, (bs + bn) as nat);
                lemma_piece_start(r@, rs as nat, (rs + rn) as nat);
            }
            let mut out: Vec<u8> = Vec::new();
            push_range(&mut out, r, 0, a);
            push_range(&mut out, b, c, d);
            push_range(&mut out, r, e, r.len());
            assert(out@ =~= r@.take(a as int) + b@.subrange(c as int, d as int) + r@.skip(e as int));
            Ok(out)
        },
        _ => Err(Refusal::InvalidHunk),
    }
}

/// The new lines of a hunk hold 0-based line `line`; an empty hunk holds the line it
/// starts at.
pub open spec fn holds(r: (usize, usize), line: int) -> bool {
    r.0 <= line < r.0 + (if r.1 == 0 { 1 } else { r.1 })
}

/// The first hunk of `s`, from position `i` on, that holds line `line`, reading headers
/// only as far as that hunk: none if no hunk holds it, an error at a malformed header
/// before it.
pub open spec fn hunk_holding(s: Seq<char>, i: int, line: int) -> Result<Option<HunkView>, ()>
    decreases s.len() + 1 - i,
    via hunk_holding_decreases
{
    if i >= s.len() || i < 0 {
        Ok(None)
    } else {
        let e = line_end(s, i);
        let l = line_text(s, i, e);
        if is_header(l) {
            match header_ranges(l) {
                None => Err(()),
                Some((x, y)) => if holds(y, line) {
                    Ok(Some(HunkView { label: l, old: x, new: y }))
                } else {
                    hunk_holding(s, e + 1, line)
                },
            }
        } else {
            hunk_holding(s, e + 1, line)
        }
    }
}

#[via_fn]
proof fn hunk_holding_decreases(s: Seq<char>, i: int, line: int) {
    if 0 <= i < s.len() {
        lemma_line_end(s, i);
    }
}

/// The first hunk of a unified diff whose new lines hold 0-based line `line`.
pub fn hunk_holding_line(text: &str, line: usize) -> (r: Result<Option<Hunk>, Refusal>)
    ensures
        r matches Ok(Some(h)) ==> hunk_holding(text@, 0, line as int) == Ok::<Option<HunkView>, ()>(Some(h@)) && h.new.0 <= line,
        r matches Ok(None) ==> hunk_holding(text@, 0, line as int) == Ok::<Option<HunkView>, ()>(None),
        r matches Err(e) ==> hunk_holding(text@, 0, line as int) is Err && e is InvalidHunk,
{
    let s = chars_of(text);
    let mut i: usize = 0;
    while i < s.len()
        invariant
            s@ == text@,
            i <= s@.len(),
            hunk_holding(s@, 0, line as int) == hunk_holding(s@, i as int, line as int),
        decreases s.len() - i,
    {
        let e = line_end_at(&s, i);
        let stop = if e < s.len() && e > i && s[e - 1] == '\r' { e - 1 } else { e };
        let l = sub_chars(&s, i, stop);
        assert(l@ == line_text(s@, i as int, e as int));
        if l.len() >= 3 && l[0] == '@' && l[1] == '@' && l[2] == ' ' {
            let w1 = word_at(&l, 0, 1);
            let w2 = word_at(&l, 0, 2);
            let (a1, e1, a2, e2) = match (w1, w2) {
                (Some((a1, e1)), Some((a2, e2))) => (a1, e1, a2, e2),
                _ => {
                    return Err(Refusal::InvalidHunk);
                },
            };
            let old = range(&sub_chars(&l, a1, e1))?;
            let new = range(&sub_chars(&l, a2, e2))?;
            let (rs, rn) = new;
            let width = if rn == 0 { 1 } else { rn };
            if line >= rs && line - rs < width {
                return Ok(Some(Hunk { label: string_from(&l), old, new }));
            }
        }
        i = if e < s.len() { e + 1 } else { e };
    }
    Ok(None)
}

} // verus!
