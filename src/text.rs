//! Character-level helpers: whitespace, trimming and splitting a line into
//! stages and words.

use vstd::prelude::*;

verus! {

/// The characters that `char::is_whitespace` accepts (Unicode `White_Space`).
pub open spec fn is_space(c: char) -> bool {
    ||| ('\t' <= c && c <= '\r')
    ||| c == ' '
    ||| c == '\u{85}'
    ||| c == '\u{a0}'
    ||| c == '\u{1680}'
    ||| ('\u{2000}' <= c && c <= '\u{200a}')
    ||| c == '\u{2028}'
    ||| c == '\u{2029}'
    ||| c == '\u{202f}'
    ||| c == '\u{205f}'
    ||| c == '\u{3000}'
}

/// Whether `c` is whitespace.
pub fn space(c: char) -> (r: bool)
    ensures
        r == is_space(c),
{
    ('\t' <= c && c <= '\r') || c == ' ' || c == '\u{85}' || c == '\u{a0}' || c == '\u{1680}'
        || ('\u{2000}' <= c && c <= '\u{200a}') || c == '\u{2028}' || c == '\u{2029}'
        || c == '\u{202f}' || c == '\u{205f}' || c == '\u{3000}'
}

/// The characters of `s`, read once.
pub fn chars_of(s: &str) -> (r: Vec<char>)
    ensures
        r@ == s@,
{
    let mut r: Vec<char> = Vec::new();
    for c in it: s.chars()
        invariant
            it.seq() == s@,
            r@ == it.seq().subrange(0, it.index() as int),
    {
        r.push(c);
    }
    r
}


/// `s` with leading whitespace removed.
pub open spec fn trim_start(s: Seq<char>) -> Seq<char>
    decreases s.len(),
{
    if s.len() > 0 && is_space(s[0]) {
        trim_start(s.drop_first())
    } else {
        s
    }
}

/// `s` with trailing whitespace removed.
pub open spec fn trim_end(s: Seq<char>) -> Seq<char>
    decreases s.len(),
{
    if s.len() > 0 && is_space(s.last()) {
        trim_end(s.drop_last())
    } else {
        s
    }
}

/// `s` with whitespace removed from both ends.
pub open spec fn trim(s: Seq<char>) -> Seq<char> {
    trim_end(trim_start(s))
}

/// Whether `c` separates pieces: a pipe between stages, whitespace between words.
pub open spec fn is_sep(c: char, words: bool) -> bool {
    if words {
        is_space(c)
    } else {
        c == '|'
    }
}

/// The pieces of `s` between separators, empty ones included; there is
/// always one more piece than there are separators.
pub open spec fn pieces(s: Seq<char>, words: bool) -> Seq<Seq<char>>
    decreases s.len(),
{
    if s.len() == 0 {
        seq![Seq::empty()]
    } else {
        let r = pieces(s.drop_last(), words);
        if is_sep(s.last(), words) {
            r.push(Seq::empty())
        } else {
            r.update(r.len() - 1, r.last().push(s.last()))
        }
    }
}

/// Each piece trimmed, in order, with the blank ones left out.
pub open spec fn nonblank(ps: Seq<Seq<char>>) -> Seq<Seq<char>>
    decreases ps.len(),
{
    if ps.len() == 0 {
        Seq::empty()
    } else {
        let r = nonblank(ps.drop_last());
        if trim(ps.last()).len() > 0 {
            r.push(trim(ps.last()))
        } else {
            r
        }
    }
}

/// The stages of a line: the trimmed, non-blank text between pipes.
pub open spec fn stages_of(line: Seq<char>) -> Seq<Seq<char>> {
    nonblank(pieces(line, false))
}

/// The words of a stage: the non-empty runs of non-whitespace characters.
pub open spec fn words_of(s: Seq<char>) -> Seq<Seq<char>> {
    nonblank(pieces(s, true))
}

proof fn lemma_pieces_nonempty(s: Seq<char>, words: bool)
    ensures
        pieces(s, words).len() >= 1,
    decreases s.len(),
{
    if s.len() > 0 {
        lemma_pieces_nonempty(s.drop_last(), words);
    }
}

/// The bounds of `trim(cs[from..to])` within `cs`.
fn trimmed_bounds(cs: &Vec<char>, from: usize, to: usize) -> (r: (usize, usize))
    requires
        from <= to <= cs.len(),
    ensures
        from <= r.0 <= r.1 <= to,
        cs@.subrange(r.0 as int, r.1 as int) == trim(cs@.subrange(from as int, to as int)),
{
    let mut a = from;
    while a < to && space(cs[a])
        invariant
            from <= a <= to <= cs.len(),
            trim_start(cs@.subrange(from as int, to as int)) == trim_start(
                cs@.subrange(a as int, to as int),
            ),
        decreases to - a,
    {
        assert(cs@.subrange(a as int, to as int).drop_first() =~= cs@.subrange(
            a + 1,
            to as int,
        ));
        a = a + 1;
    }
    let mut b = to;
    while b > a && space(cs[b - 1])
        invariant
            from <= a <= b <= to <= cs.len(),
            trim_end(cs@.subrange(a as int, to as int)) == trim_end(
                cs@.subrange(a as int, b as int),
            ),
        decreases b - a,
    {
        assert(cs@.subrange(a as int, b as int).drop_last() =~= cs@.subrange(
            a as int,
            b - 1,
        ));
        b = b - 1;
    }
    (a, b)
}

/// The pieces of `s`, trimmed, with blank ones left out.
fn split_nonblank(s: &str, words: bool) -> (r: Vec<String>)
    ensures
        r.deep_view() == nonblank(pieces(s@, words)),
{
    let cs = chars_of(s);
    let n = cs.len();
    let mut out: Vec<String> = Vec::new();
    let mut start: usize = 0;
    let mut i: usize = 0;
    while i < n
        invariant
            n == cs.len(),
            cs@ == s@,
            start <= i <= n,
            pieces(cs@.subrange(0, i as int), words).len() >= 1,
            pieces(cs@.subrange(0, i as int), words).last() == cs@.subrange(
                start as int,
                i as int,
            ),
            out.deep_view() == nonblank(pieces(cs@.subrange(0, i as int), words).drop_last()),
        decreases n - i,
    {
        let ghost p = pieces(cs@.subrange(0, i as int), words);
        let ghost q = pieces(cs@.subrange(0, i + 1), words);
        assert(cs@.subrange(0, i + 1).drop_last() =~= cs@.subrange(0, i as int));
        let c = cs[i];
        let sep = if words {
            space(c)
        } else {
            c == '|'
        };
        if sep {
            assert(q == p.push(Seq::empty()));
            assert(q.drop_last() =~= p);
            assert(p =~= p.drop_last().push(p.last()));
            let (a, b) = trimmed_bounds(&cs, start, i);
            if a < b {
                let piece = String::from_str(s.substring_char(a, b));
                out.push(piece);
            }
            start = i + 1;
            assert(q.last() =~= cs@.subrange(start as int, start as int));
        } else {
            assert(q.drop_last() =~= p.drop_last());
            assert(q.last() =~= cs@.subrange(start as int, i + 1));
        }
        proof {
            lemma_pieces_nonempty(cs@.subrange(0, i + 1), words);
        }
        i = i + 1;
    }
    let ghost p = pieces(cs@.subrange(0, n as int), words);
    assert(cs@.subrange(0, n as int) =~= s@);
    assert(p =~= p.drop_last().push(p.last()));
    let (a, b) = trimmed_bounds(&cs, start, n);
    if a < b {
        let piece = String::from_str(s.substring_char(a, b));
        out.push(piece);
    }
    out
}

/// The stages of `line`: split at every `|`, each trimmed, blank ones dropped.
pub fn split_stages(line: &str) -> (r: Vec<String>)
    ensures
        r.deep_view() == stages_of(line@),
{
    split_nonblank(line, false)
}

/// The whitespace-separated words of `stage`.
pub fn split_words(stage: &str) -> (r: Vec<String>)
    ensures
        r.deep_view() == words_of(stage@),
{
    split_nonblank(stage, true)
}

} // verus!
