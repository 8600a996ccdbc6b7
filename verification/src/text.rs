//! Character and string helpers shared by the text-processing parts of the
//! library.

use vstd::prelude::*;

verus! {

/// Unicode `White_Space`, the characters for which `char::is_whitespace`
/// answers true: ASCII space and the controls from tab to carriage return,
/// next line, no-break space, the Ogham space mark, the spaces from en quad
/// to hair space, line and paragraph separator, the narrow no-break space,
/// the medium mathematical space and the ideographic space.
pub open spec fn char_is_whitespace(c: char) -> bool {
    ||| c == ' '
    ||| ('\t' <= c && c <= '\r')
    ||| c == '\u{85}'
    ||| c == '\u{a0}'
    ||| c == '\u{1680}'
    ||| ('\u{2000}' <= c && c <= '\u{200a}')
    ||| c == '\u{2028}'
    ||| c == '\u{2029}'
    ||| c == '\u{202f}'
    ||| c == '\u{205f}'
    ||| c == '\u{3000}'
}

/// What `char::is_alphabetic` answers (Unicode `Alphabetic`).
pub uninterp spec fn char_is_alphabetic(c: char) -> bool;

/// What `char::is_alphanumeric` answers (Unicode `Alphabetic` or `Numeric`).
pub uninterp spec fn char_is_alphanumeric(c: char) -> bool;

/// An ASCII letter.
pub open spec fn is_ascii_letter(c: char) -> bool {
    ('a' <= c && c <= 'z') || ('A' <= c && c <= 'Z')
}

/// Whether `char::is_alphabetic` answers true: for ASCII, exactly the
/// letters.
pub open spec fn alphabetic(c: char) -> bool {
    if c <= '\u{7f}' {
        is_ascii_letter(c)
    } else {
        char_is_alphabetic(c)
    }
}

/// Whether `char::is_alphanumeric` answers true: for ASCII, exactly the
/// letters and digits.
pub open spec fn alphanumeric(c: char) -> bool {
    if c <= '\u{7f}' {
        is_ascii_letter(c) || ('0' <= c && c <= '9')
    } else {
        char_is_alphanumeric(c)
    }
}

/// Whether `c` is white space, as `char::is_whitespace` answers.
pub fn is_whitespace(c: char) -> (r: bool)
    ensures
        r == char_is_whitespace(c),
{
    c == ' ' || ('\t' <= c && c <= '\r') || c == '\u{85}' || c == '\u{a0}' || c == '\u{1680}'
        || ('\u{2000}' <= c && c <= '\u{200a}') || c == '\u{2028}' || c == '\u{2029}'
        || c == '\u{202f}' || c == '\u{205f}' || c == '\u{3000}'
}

/// `char::is_alphabetic` from std: the contract names the answer, and
/// states it for ASCII, where exactly the letters are alphabetic; outside
/// ASCII (the Unicode `Alphabetic` table) it is left unsaid.
#[verifier::external_body]
pub(crate) fn is_alphabetic(c: char) -> (r: bool)
    ensures
        r == char_is_alphabetic(c),
        c <= '\u{7f}' ==> (r <==> is_ascii_letter(c)),
{
    c.is_alphabetic()
}

/// `char::is_alphanumeric` from std: the contract names the answer, and
/// states it for ASCII, where exactly the letters and digits qualify;
/// outside ASCII (the Unicode `Alphabetic` and `Numeric` tables) it is left
/// unsaid.
#[verifier::external_body]
pub(crate) fn is_alphanumeric(c: char) -> (r: bool)
    ensures
        r == char_is_alphanumeric(c),
        c <= '\u{7f}' ==> (r <==> (is_ascii_letter(c) || ('0' <= c && c <= '9'))),
{
    c.is_alphanumeric()
}

pub open spec fn is_ascii_digit(c: char) -> bool {
    '0' <= c <= '9'
}

pub open spec fn is_ascii_hexdigit(c: char) -> bool {
    ('0' <= c <= '9') || ('a' <= c <= 'f') || ('A' <= c <= 'F')
}

/// `String::push` from std: appends one character.
#[verifier::external_body]
pub(crate) fn push_char(s: &mut String, c: char)
    ensures
        final(s)@ == old(s)@.push(c),
{
    s.push(c);
}

/// Appends the characters of `s` to `out`.
pub fn push_str(out: &mut String, s: &str)
    ensures
        final(out)@ == old(out)@ + s@,
{
    let chars = str_to_chars(s);
    let n = chars.len();
    let mut i: usize = 0;
    while i < n
        invariant
            n == s@.len(),
            chars@ == s@,
            i <= n,
            out@ == old(out)@ + s@.subrange(0, i as int),
        decreases n - i,
    {
        push_char(out, chars[i]);
        proof {
            assert(s@.subrange(0, i + 1) =~= s@.subrange(0, i as int).push(s@[i as int]));
        }
        i = i + 1;
    }
    assert(s@.subrange(0, n as int) =~= s@);
}

/// A string of `prefix` followed by `s`.
pub fn concat(prefix: &str, s: &str) -> (r: String)
    ensures
        r@ == prefix@ + s@,
{
    let mut r = String::new();
    push_str(&mut r, prefix);
    push_str(&mut r, s);
    assert(r@ =~= prefix@ + s@);
    r
}

/// The characters of a string slice, in order.
pub fn str_to_chars(s: &str) -> (v: Vec<char>)
    ensures
        v@ == s@,
{
    broadcast use vstd::string::axiom_spec_iter, vstd::string::next_postcondition;

    let mut it = s.chars();
    let mut v: Vec<char> = Vec::new();
    loop
        invariant
            v@ + vstd::std_specs::iter::IteratorSpec::remaining(&it) == s@,
            vstd::std_specs::iter::IteratorSpec::decrease(&it) is Some,
        ensures
            v@ == s@,
        decreases vstd::std_specs::iter::IteratorSpec::decrease(&it)->0,
    {
        let ghost before = vstd::std_specs::iter::IteratorSpec::remaining(&it);
        match it.next() {
            Some(c) => {
                v.push(c);
                assert(before.len() > 0);
                assert(v@ + vstd::std_specs::iter::IteratorSpec::remaining(&it) =~= s@);
            },
            None => {
                assert(v@ =~= s@);
                break;
            },
        }
    }
    v
}

/// Whether the characters `a` spell exactly the string `s`.
pub fn chars_eq_str(a: &Vec<char>, s: &str) -> (r: bool)
    ensures
        r == (a@ == s@),
{
    let b = str_to_chars(s);
    let n = b.len();
    if a.len() != n {
        return false;
    }
    let mut i: usize = 0;
    while i < n
        invariant
            n == s@.len(),
            b@ == s@,
            a@.len() == n,
            i <= n,
            forall|j: int| 0 <= j < i ==> a@[j] == s@[j],
        decreases n - i,
    {
        if a[i] != b[i] {
            return false;
        }
        i = i + 1;
    }
    assert(a@ =~= s@);
    true
}


/// The views of a list of character vectors.
pub open spec fn char_rows(v: Seq<Vec<char>>) -> Seq<Seq<char>> {
    v.map_values(|r: Vec<char>| r@)
}

/// `s` split at each `'\n'` (the pieces between, before the first and
/// after the last, possibly empty).
pub open spec fn split_newlines(s: Seq<char>) -> Seq<Seq<char>>
    decreases s.len(),
{
    if s.len() == 0 {
        seq![seq![]]
    } else {
        let p = split_newlines(s.drop_last());
        if s.last() == '\n' {
            p.push(seq![])
        } else {
            p.update(p.len() - 1, p.last().push(s.last()))
        }
    }
}

proof fn lemma_split_newlines_nonempty(s: Seq<char>)
    ensures
        split_newlines(s).len() >= 1,
    decreases s.len(),
{
    if s.len() > 0 {
        lemma_split_newlines_nonempty(s.drop_last());
    }
}

/// A line without the `'\r'` of a `"\r\n"` line ending.
pub open spec fn strip_cr(l: Seq<char>) -> Seq<char> {
    if l.len() > 0 && l.last() == '\r' {
        l.drop_last()
    } else {
        l
    }
}

/// The lines of a text, as `str::lines` gives them: split at `'\n'`, the
/// `'\r'` of a `"\r\n"` ending removed, and no empty line after a final
/// line ending.
pub open spec fn text_lines(s: Seq<char>) -> Seq<Seq<char>> {
    let p = split_newlines(s);
    let n = if p.last().len() == 0 { p.len() - 1 } else { p.len() as int };
    Seq::new(n as nat, |i: int| if i < p.len() - 1 { strip_cr(p[i]) } else { p[i] })
}

fn strip_cr_exec(v: Vec<char>) -> (r: Vec<char>)
    ensures
        r@ == strip_cr(v@),
{
    let mut v = v;
    if v.len() > 0 && v[v.len() - 1] == '\r' {
        v.pop();
    }
    v
}

/// The lines of `s`.
pub fn lines(s: &str) -> (r: Vec<Vec<char>>)
    ensures
        char_rows(r@) == text_lines(s@),
{
    let chars = str_to_chars(s);
    let n = chars.len();
    let mut done: Vec<Vec<char>> = Vec::new();
    let mut cur: Vec<char> = Vec::new();
    let mut i: usize = 0;
    while i < n
        invariant
            n == s@.len(),
            chars@ == s@,
            i <= n,
            ({
                let p = split_newlines(s@.subrange(0, i as int));
                &&& char_rows(done@) == Seq::new((p.len() - 1) as nat, |k: int| strip_cr(p[k]))
                &&& cur@ == p.last()
                &&& p.len() == done@.len() + 1
            }),
        decreases n - i,
    {
        let c = chars[i];
        let ghost before = s@.subrange(0, i as int);
        let ghost p = split_newlines(before);
        proof {
            lemma_split_newlines_nonempty(before);
            assert(s@.subrange(0, i + 1).drop_last() =~= before);
            assert(s@.subrange(0, i + 1).last() == c);
        }
        if c == '\n' {
            let mut line: Vec<char> = Vec::new();
            std::mem::swap(&mut line, &mut cur);
            let line = strip_cr_exec(line);
            let ghost d = done@;
            done.push(line);
            proof {
                let q = split_newlines(s@.subrange(0, i + 1));
                assert(q == p.push(seq![]));
                assert(char_rows(done@) =~= char_rows(d).push(strip_cr(p.last())));
                assert(char_rows(done@) =~= Seq::new((q.len() - 1) as nat, |k: int| strip_cr(q[k])));
            }
        } else {
            cur.push(c);
            proof {
                let q = split_newlines(s@.subrange(0, i + 1));
                assert(q == p.update(p.len() - 1, p.last().push(c)));
                assert(char_rows(done@) =~= Seq::new((q.len() - 1) as nat, |k: int| strip_cr(q[k])));
            }
        }
        i = i + 1;
    }
    proof {
        assert(s@.subrange(0, n as int) =~= s@);
        lemma_split_newlines_nonempty(s@);
    }
    let ghost p = split_newlines(s@);
    if cur.len() > 0 {
        let ghost d = done@;
        done.push(cur);
        proof {
            assert(p.len() == d.len() + 1);
            assert(p.last().len() > 0);
            let t = text_lines(s@);
            assert(t.len() == done@.len());
            assert forall|k: int| 0 <= k < t.len() implies char_rows(done@)[k] == t[k] by {
                if k < p.len() - 1 {
                    assert(char_rows(done@)[k] == char_rows(d)[k]);
                }
            }
            assert(char_rows(done@) =~= text_lines(s@));
        }
    } else {
        proof {
            assert(p.len() == done@.len() + 1);
            assert(p.last().len() == 0);
            let t = text_lines(s@);
            assert(t.len() == done@.len());
            assert forall|k: int| 0 <= k < t.len() implies char_rows(done@)[k] == t[k] by {
                assert(k < p.len() - 1);
            }
            assert(char_rows(done@) =~= text_lines(s@));
        }
    }
    done
}

/// The whitespace-separated words of `s`, as `str::split_whitespace`
/// gives them.
pub open spec fn words(s: Seq<char>) -> Seq<Seq<char>>
    decreases s.len(),
{
    if s.len() == 0 {
        seq![]
    } else {
        let w = words(s.drop_last());
        let c = s.last();
        if char_is_whitespace(c) {
            w
        } else if s.len() > 1 && !char_is_whitespace(s.drop_last().last()) {
            w.update(w.len() - 1, w.last().push(c))
        } else {
            w.push(seq![c])
        }
    }
}

proof fn lemma_words_last(s: Seq<char>)
    requires
        s.len() > 0,
        !char_is_whitespace(s.last()),
    ensures
        words(s).len() > 0,
    decreases s.len(),
{
    if s.len() > 1 && !char_is_whitespace(s.drop_last().last()) {
        lemma_words_last(s.drop_last());
    }
}

/// The words of `s`.
pub fn split_words(s: &Vec<char>) -> (r: Vec<Vec<char>>)
    ensures
        char_rows(r@) == words(s@),
{
    let mut out: Vec<Vec<char>> = Vec::new();
    let mut cur: Vec<char> = Vec::new();
    let mut in_word = false;
    let mut i: usize = 0;
    while i < s.len()
        invariant
            i <= s@.len(),
            in_word == (i > 0 && !char_is_whitespace(s@[i - 1])),
            in_word ==> words(s@.subrange(0, i as int)).len() > 0,
            in_word ==> char_rows(out@).push(cur@) == words(s@.subrange(0, i as int)),
            !in_word ==> char_rows(out@) == words(s@.subrange(0, i as int)) && cur@.len() == 0,
        decreases s@.len() - i,
    {
        let c = s[i];
        let ghost pre = s@.subrange(0, i as int);
        proof {
            assert(s@.subrange(0, i + 1).drop_last() =~= pre);
            assert(s@.subrange(0, i + 1).last() == c);
            if i > 0 {
                assert(pre.last() == s@[i - 1]);
            }
        }
        if is_whitespace(c) {
            if in_word {
                let mut w: Vec<char> = Vec::new();
                std::mem::swap(&mut w, &mut cur);
                let ghost o = out@;
                out.push(w);
                proof {
                    assert(char_rows(out@) =~= char_rows(o).push(w@));
                }
            }
            in_word = false;
        } else {
            let ghost o = char_rows(out@);
            cur.push(c);
            proof {
                let next = words(s@.subrange(0, i + 1));
                if in_word {
                    assert(next == words(pre).update(words(pre).len() - 1, words(pre).last().push(c)));
                    assert(o.push(cur@) =~= next);
                } else {
                    assert(cur@ =~= seq![c]);
                    assert(o.push(cur@) =~= next);
                }
                lemma_words_last(s@.subrange(0, i + 1));
            }
            in_word = true;
        }
        i = i + 1;
    }
    proof {
        assert(s@.subrange(0, s@.len() as int) =~= s@);
    }
    if in_word {
        let ghost o = out@;
        out.push(cur);
        proof {
            assert(char_rows(out@) =~= char_rows(o).push(cur@));
        }
    }
    out
}

/// The value of a string of decimal digits.
pub open spec fn digits_value(s: Seq<char>) -> nat
    decreases s.len(),
{
    if s.len() == 0 {
        0
    } else {
        digits_value(s.drop_last()) * 10 + ((s.last() as nat) - ('0' as nat)) as nat
    }
}

/// `s` without a leading `+`.
pub open spec fn strip_plus(s: Seq<char>) -> Seq<char> {
    if s.len() > 0 && s[0] == '+' {
        s.drop_first()
    } else {
        s
    }
}

/// A `u32` as `u32::from_str` reads it: an optional `+`, then one or more
/// ASCII digits, no larger than `u32::MAX`.
pub open spec fn parse_u32_spec(s: Seq<char>) -> Option<u32> {
    let d = strip_plus(s);
    if d.len() > 0 && (forall|i: int| 0 <= i < d.len() ==> is_ascii_digit(#[trigger] d[i])) && digits_value(d)
        <= u32::MAX {
        Some(digits_value(d) as u32)
    } else {
        None
    }
}

proof fn lemma_digits_monotone(d: Seq<char>, k: int)
    requires
        0 <= k <= d.len(),
        forall|i: int| 0 <= i < d.len() ==> is_ascii_digit(#[trigger] d[i]),
    ensures
        digits_value(d.subrange(0, k)) <= digits_value(d),
    decreases d.len() - k,
{
    if k < d.len() {
        lemma_digits_monotone(d, k + 1);
        assert(d.subrange(0, k + 1).drop_last() =~= d.subrange(0, k));
    } else {
        assert(d.subrange(0, k) =~= d);
    }
}

/// Reads a `u32` from `s`.
pub fn parse_u32(s: &Vec<char>) -> (r: Option<u32>)
    ensures
        r == parse_u32_spec(s@),
{
    let start: usize = if s.len() > 0 && s[0] == '+' { 1 } else { 0 };
    let ghost d = strip_plus(s@);
    assert(d =~= s@.subrange(start as int, s@.len() as int));
    if start >= s.len() {
        return None;
    }
    let mut acc: u64 = 0;
    let mut i: usize = start;
    while i < s.len()
        invariant
            start <= i <= s@.len(),
            d == s@.subrange(start as int, s@.len() as int),
            d == strip_plus(s@),
            forall|k: int| 0 <= k < i - start ==> is_ascii_digit(#[trigger] d[k]),
            acc == digits_value(d.subrange(0, i - start)),
            acc <= u32::MAX,
        decreases s@.len() - i,
    {
        let c = s[i];
        if !('0' <= c && c <= '9') {
            assert(!is_ascii_digit(d[i - start]));
            assert(!is_ascii_digit(strip_plus(s@)[i - start]));
            return None;
        }
        let v = (c as u64) - ('0' as u64);
        assert(d.subrange(0, i - start + 1).drop_last() =~= d.subrange(0, i - start as int));
        acc = acc * 10 + v;
        i = i + 1;
        if acc > 0xFFFF_FFFF {
            proof {
                if forall|k: int| 0 <= k < strip_plus(s@).len() ==> is_ascii_digit(#[trigger] strip_plus(s@)[k]) {
                    lemma_digits_monotone(strip_plus(s@), i - start);
                }
            }
            return None;
        }
    }
    assert(d.subrange(0, d.len() as int) =~= d);
    Some(acc as u32)
}

} // verus!
