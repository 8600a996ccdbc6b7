//! The text header of a Mesytec listmode dump file: a few lines of ASCII,
//! usually two, of which the second may say how many there are
//! (`header length: N lines`).

use vstd::prelude::*;

verus! {

/// Lines of text at the start of a dump file where the header does not say.
pub const DUMP_HEADER_LINES: u64 = 2;

/// The line (counting from one) that may declare the header's length.
pub const LENGTH_LINE: u64 = 2;

/// `header length: `
pub open spec fn length_key() -> Seq<u8> {
    seq![0x68u8, 0x65, 0x61, 0x64, 0x65, 0x72, 0x20, 0x6c, 0x65, 0x6e, 0x67, 0x74, 0x68, 0x3a, 0x20]
}

/// ` lines`
pub open spec fn lines_key() -> Seq<u8> {
    seq![0x20u8, 0x6c, 0x69, 0x6e, 0x65, 0x73]
}

/// The first place at or after `i` where `needle` occurs in `hay`.
pub open spec fn first_from(hay: Seq<u8>, needle: Seq<u8>, i: int) -> Option<int>
    decreases hay.len() - i,
{
    if i < 0 || i >= hay.len() || i + needle.len() > hay.len() {
        None
    } else if hay.subrange(i, i + needle.len()) == needle {
        Some(i)
    } else {
        first_from(hay, needle, i + 1)
    }
}

/// ASCII white space as `str::trim` removes it.
pub open spec fn is_space(b: u8) -> bool {
    b == 0x20 || (0x09 <= b <= 0x0d)
}

/// `s` without white space at its start.
pub open spec fn trim_start(s: Seq<u8>) -> Seq<u8>
    decreases s.len(),
{
    if s.len() > 0 && is_space(s[0]) {
        trim_start(s.drop_first())
    } else {
        s
    }
}

/// `s` without white space at its end.
pub open spec fn trim_end(s: Seq<u8>) -> Seq<u8>
    decreases s.len(),
{
    if s.len() > 0 && is_space(s.last()) {
        trim_end(s.drop_last())
    } else {
        s
    }
}

/// The decimal value of a run of ASCII digits.
pub open spec fn digits_value(d: Seq<u8>) -> nat
    decreases d.len(),
{
    if d.len() == 0 {
        0
    } else {
        digits_value(d.drop_last()) * 10 + (d.last() - 0x30u8) as nat
    }
}

pub open spec fn is_digit(b: u8) -> bool {
    0x30 <= b <= 0x39
}

/// A `u64` as `u64::from_str` reads the trimmed text: an optional `+`, then
/// one or more digits, no larger than `u64::MAX`.
pub open spec fn parse_count(s: Seq<u8>) -> Option<u64> {
    parse_digits(strip_plus(trim_end(trim_start(s))))
}

/// `t` without a leading `+`.
pub open spec fn strip_plus(t: Seq<u8>) -> Seq<u8> {
    if t.len() > 0 && t[0] == 0x2b { t.drop_first() } else { t }
}

/// The value of a nonempty run of digits that fits in a `u64`.
pub open spec fn parse_digits(d: Seq<u8>) -> Option<u64> {
    if d.len() > 0 && (forall|i: int| 0 <= i < d.len() ==> is_digit(#[trigger] d[i]))
        && digits_value(d) <= u64::MAX {
        Some(digits_value(d) as u64)
    } else {
        None
    }
}

/// The number of header lines that `line` declares: the number between the
/// first `header length: ` and the first ` lines` after it.
pub open spec fn declared_lines(line: Seq<u8>) -> Option<u64> {
    match first_from(line, length_key(), 0) {
        None => None,
        Some(p) => match first_from(line, lines_key(), p + length_key().len()) {
            None => None,
            Some(q) => parse_count(line.subrange(p + length_key().len(), q)),
        },
    }
}

/// How many lines the header has once `linebreaks` lines, the last of them
/// `line`, have been read, where `lines` was known before.
pub open spec fn lines_after(linebreaks: u64, lines: u64, line: Seq<u8>) -> u64 {
    if linebreaks == LENGTH_LINE {
        match declared_lines(line) {
            Some(n) => n,
            None => lines,
        }
    } else {
        lines
    }
}

/// Where a reader stands in the text header: the line breaks read, the
/// number of header lines known so far, and the current line.
pub struct HeaderScan {
    pub linebreaks: u64,
    pub lines: u64,
    pub line: Vec<u8>,
}

impl HeaderScan {
    /// At the start of the header.
    pub fn new() -> (s: HeaderScan)
        ensures
            s.linebreaks == 0,
            s.lines == DUMP_HEADER_LINES,
            s.line@ == Seq::<u8>::empty(),
    {
        HeaderScan { linebreaks: 0, lines: DUMP_HEADER_LINES, line: Vec::new() }
    }

    /// Takes the next byte of the header; whether the header ends with it.
    /// The header ends at the line break that completes as many lines as it
    /// declares, or two where it declares none.
    pub fn feed(&mut self, byte: u8) -> (done: bool)
        requires
            old(self).linebreaks < u64::MAX,
        ensures
            byte != 0x0a ==> {
                &&& final(self).linebreaks == old(self).linebreaks
                &&& final(self).lines == old(self).lines
                &&& final(self).line@ == old(self).line@.push(byte)
                &&& !done
            },
            byte == 0x0a ==> {
                &&& final(self).linebreaks == old(self).linebreaks + 1
                &&& final(self).lines == lines_after(
                    final(self).linebreaks,
                    old(self).lines,
                    old(self).line@,
                )
                &&& final(self).line@ == Seq::<u8>::empty()
                &&& done == (final(self).linebreaks == final(self).lines)
            },
    {
        if byte != 0x0a {
            self.line.push(byte);
            return false;
        }
        self.linebreaks = self.linebreaks + 1;
        if self.linebreaks == LENGTH_LINE {
            match declared_lines_exec(&self.line) {
                Some(n) => {
                    self.lines = n;
                },
                None => {},
            }
        }
        self.line = Vec::new();
        self.linebreaks == self.lines
    }
}

/// Whether `needle` occurs in `hay` at `i`.
fn occurs_at(hay: &Vec<u8>, i: usize, needle: &[u8]) -> (r: bool)
    requires
        i + needle@.len() <= hay@.len(),
    ensures
        r == (hay@.subrange(i as int, i + needle@.len()) == needle@),
{
    let hl = hay.len();
    let mut k: usize = 0;
    while k < needle.len()
        invariant
            hl == hay@.len(),
            k <= needle@.len(),
            i + needle@.len() <= hay@.len(),
            forall|j: int| 0 <= j < k ==> hay@[i + j] == needle@[j],
        decreases needle@.len() - k,
    {
        assert(i + k < hay@.len());
        if hay[i + k] != needle[k] {
            assert(hay@.subrange(i as int, i + needle@.len())[k as int] != needle@[k as int]);
            return false;
        }
        k = k + 1;
    }
    assert(hay@.subrange(i as int, i + needle@.len()) =~= needle@);
    true
}

/// The first place at or after `from` where `needle` occurs in `hay`.
fn find_from(hay: &Vec<u8>, needle: &[u8], from: usize) -> (r: Option<usize>)
    ensures
        match r {
            Some(i) => first_from(hay@, needle@, from as int) == Some(i as int) && from <= i
                && i + needle@.len() <= hay@.len(),
            None => first_from(hay@, needle@, from as int) is None,
        },
{
    let mut i = from;
    while i < hay.len()
        invariant
            from <= i,
            first_from(hay@, needle@, from as int) == first_from(hay@, needle@, i as int),
        decreases hay@.len() - i,
    {
        if needle.len() > hay.len() - i {
            return None;
        }
        if occurs_at(hay, i, needle) {
            return Some(i);
        }
        i = i + 1;
    }
    None
}

/// Reads the trimmed count in `s[a..b]`.
fn parse_count_exec(s: &Vec<u8>, a: usize, b: usize) -> (r: Option<u64>)
    requires
        a <= b <= s@.len(),
    ensures
        r == parse_count(s@.subrange(a as int, b as int)),
{
    let ghost whole = s@.subrange(a as int, b as int);
    let mut lo = a;
    while lo < b && (s[lo] == 0x20 || (0x09 <= s[lo] && s[lo] <= 0x0d))
        invariant
            a <= lo <= b <= s@.len(),
            trim_start(whole) == trim_start(s@.subrange(lo as int, b as int)),
        decreases b - lo,
    {
        assert(s@.subrange(lo + 1, b as int) =~= s@.subrange(lo as int, b as int).drop_first());
        lo = lo + 1;
    }
    let ghost started = s@.subrange(lo as int, b as int);
    assert(trim_start(whole) == started);
    let mut hi = b;
    while hi > lo && (s[hi - 1] == 0x20 || (0x09 <= s[hi - 1] && s[hi - 1] <= 0x0d))
        invariant
            lo <= hi <= b <= s@.len(),
            trim_end(started) == trim_end(s@.subrange(lo as int, hi as int)),
        decreases hi - lo,
    {
        assert(s@.subrange(lo as int, hi - 1) =~= s@.subrange(lo as int, hi as int).drop_last());
        hi = hi - 1;
    }
    let ghost t = s@.subrange(lo as int, hi as int);
    assert(trim_end(started) == t);
    let start = if lo < hi && s[lo] == 0x2b { lo + 1 } else { lo };
    let ghost d = s@.subrange(start as int, hi as int);
    assert(d =~= strip_plus(t));
    assert(parse_count(whole) == parse_digits(d));
    if start >= hi {
        return None;
    }
    let mut acc: u64 = 0;
    let mut i = start;
    while i < hi
        invariant
            start <= i <= hi <= s@.len(),
            d == s@.subrange(start as int, hi as int),
            forall|k: int| 0 <= k < i - start ==> is_digit(#[trigger] d[k]),
            parse_count(s@.subrange(a as int, b as int)) == parse_digits(d),
            acc == digits_value(d.subrange(0, i - start)),
        decreases hi - i,
    {
        let c = s[i];
        if !(0x30 <= c && c <= 0x39) {
            assert(!is_digit(d[i - start]));
            return None;
        }
        assert(d.subrange(0, i - start + 1).drop_last() =~= d.subrange(0, i - start as int));
        let v = (c - 0x30) as u64;
        if acc > (u64::MAX - v) / 10 {
            proof {
                assert(acc * 10 + v > u64::MAX) by (nonlinear_arith)
                    requires
                        acc > (u64::MAX - v) / 10,
                        v <= 9,
                ;
                lemma_digits_grow(d, i - start + 1);
            }
            return None;
        }
        assert(acc * 10 + v <= u64::MAX) by (nonlinear_arith)
            requires
                acc <= (u64::MAX - v) / 10,
                v <= 9,
        ;
        acc = acc * 10 + v;
        i = i + 1;
    }
    assert(d.subrange(0, d.len() as int) =~= d);
    Some(acc)
}

/// A prefix of digits is worth no more than the whole run.
proof fn lemma_digits_grow(d: Seq<u8>, k: int)
    requires
        0 <= k <= d.len(),
    ensures
        (forall|i: int| 0 <= i < d.len() ==> is_digit(#[trigger] d[i])) ==> digits_value(
            d.subrange(0, k),
        ) <= digits_value(d),
    decreases d.len() - k,
{
    if k < d.len() {
        lemma_digits_grow(d, k + 1);
        assert(d.subrange(0, k + 1).drop_last() =~= d.subrange(0, k));
    } else {
        assert(d.subrange(0, k) =~= d);
    }
}

/// The number of header lines that `line` declares.
fn declared_lines_exec(line: &Vec<u8>) -> (r: Option<u64>)
    ensures
        r == declared_lines(line@),
{
    let key: [u8; 15] = [0x68, 0x65, 0x61, 0x64, 0x65, 0x72, 0x20, 0x6c, 0x65, 0x6e, 0x67, 0x74, 0x68, 0x3a, 0x20];
    let tail: [u8; 6] = [0x20, 0x6c, 0x69, 0x6e, 0x65, 0x73];
    assert(key@ =~= length_key());
    assert(tail@ =~= lines_key());
    let _line_len = line.len();
    match find_from(line, key.as_slice(), 0) {
        None => None,
        Some(p) => {
            match find_from(line, tail.as_slice(), p + 15) {
                None => None,
                Some(q) => {
                    parse_count_exec(line, p + 15, q)
                },
            }
        },
    }
}

} // verus!
