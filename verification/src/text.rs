//! Character-level text handling: whitespace, trimming, splitting, joining,
//! and building `String`s from characters.
use vstd::prelude::*;

verus! {

/// Whether `c` has the Unicode `White_Space` property, the set of
/// characters that `char::is_whitespace` reports.
pub open spec fn is_space(c: char) -> bool {
    ||| ('\u{9}' <= c && c <= '\u{d}')
    ||| c == ' '
    ||| c == '\u{85}'
    ||| c == '\u{a0}'
    ||| c == '\u{1680}'
    ||| ('\u{2000}' <= c && c <= '\u{200a}')
    ||| c == '\u{2028}'
    ||| c == '\u{2029}'
    ||| c == '\u{202f}'
    ||| c == '\u{205f}'
    ||| c == '\u{3000}'
}

/// Executable form of [`is_space`].
pub fn char_is_space(c: char) -> (b: bool)
    ensures
        b == is_space(c),
{
    ('\u{9}' <= c && c <= '\u{d}') || c == ' ' || c == '\u{85}' || c == '\u{a0}' || c == '\u{1680}'
        || ('\u{2000}' <= c && c <= '\u{200a}') || c == '\u{2028}' || c == '\u{2029}'
        || c == '\u{202f}' || c == '\u{205f}' || c == '\u{3000}'
}

/// `s` without its leading whitespace.
pub open spec fn trim_start(s: Seq<char>) -> Seq<char>
    decreases s.len(),
{
    if s.len() > 0 && is_space(s[0]) {
        trim_start(s.drop_first())
    } else {
        s
    }
}

/// `s` without its trailing whitespace.
pub open spec fn trim_end(s: Seq<char>) -> Seq<char>
    decreases s.len(),
{
    if s.len() > 0 && is_space(s.last()) {
        trim_end(s.drop_last())
    } else {
        s
    }
}

/// `s` without leading and trailing whitespace, as `str::trim` gives it.
pub open spec fn trim(s: Seq<char>) -> Seq<char> {
    trim_end(trim_start(s))
}

/// The pieces of `s` between occurrences of `sep`, as `str::split` with a
/// character pattern gives them (always at least one piece).
pub open spec fn split_on(s: Seq<char>, sep: char) -> Seq<Seq<char>>
    decreases s.len(),
{
    if s.len() == 0 {
        seq![Seq::<char>::empty()]
    } else {
        let r = split_on(s.drop_last(), sep);
        if s.last() == sep {
            r.push(Seq::<char>::empty())
        } else {
            r.update(r.len() - 1, r.last().push(s.last()))
        }
    }
}

/// The maximal runs of non-whitespace characters of `s`, in order, as
/// `str::split_whitespace` gives them.
pub open spec fn words(s: Seq<char>) -> Seq<Seq<char>>
    decreases s.len(),
{
    if s.len() == 0 {
        Seq::<Seq<char>>::empty()
    } else {
        let r = words(s.drop_last());
        let c = s.last();
        if is_space(c) {
            r
        } else if s.len() >= 2 && !is_space(s[s.len() - 2]) {
            r.update(r.len() - 1, r.last().push(c))
        } else {
            r.push(seq![c])
        }
    }
}

/// The pieces joined with `sep` between neighbours, as `[String]::join`.
pub open spec fn join(pieces: Seq<Seq<char>>, sep: Seq<char>) -> Seq<char>
    decreases pieces.len(),
{
    if pieces.len() == 0 {
        Seq::<char>::empty()
    } else if pieces.len() == 1 {
        pieces[0]
    } else {
        join(pieces.drop_last(), sep) + sep + pieces.last()
    }
}

/// The ASCII upper-case form of `c`, as `char::to_ascii_uppercase`.
pub open spec fn ascii_upper(c: char) -> char {
    if 'a' <= c && c <= 'z' {
        ((c as int) - 32) as char
    } else {
        c
    }
}

/// The ASCII upper-case form of `s`, as `str::to_ascii_uppercase`.
pub open spec fn ascii_upper_text(s: Seq<char>) -> Seq<char> {
    Seq::new(s.len(), |i: int| ascii_upper(s[i]))
}

/// The views of a sequence of character vectors.
pub open spec fn views(v: Seq<Vec<char>>) -> Seq<Seq<char>> {
    Seq::new(v.len(), |i: int| v[i]@)
}

pub proof fn lemma_split_on_nonempty(s: Seq<char>, sep: char)
    ensures
        split_on(s, sep).len() >= 1,
    decreases s.len(),
{
    if s.len() > 0 {
        lemma_split_on_nonempty(s.drop_last(), sep);
    }
}

pub proof fn lemma_words_nonempty(s: Seq<char>)
    requires
        s.len() > 0,
        !is_space(s.last()),
    ensures
        words(s).len() >= 1,
        words(s).last().len() >= 1,
    decreases s.len(),
{
    if s.len() >= 2 && !is_space(s[s.len() - 2]) {
        lemma_words_nonempty(s.drop_last());
    }
}

/// A text without the separator is a single piece.
pub proof fn lemma_split_on_no_sep(a: Seq<char>, sep: char)
    requires
        !a.contains(sep),
    ensures
        split_on(a, sep) == seq![a],
    decreases a.len(),
{
    if a.len() > 0 {
        assert(!a.drop_last().contains(sep)) by {
            if a.drop_last().contains(sep) {
                let i = choose|i: int| 0 <= i < a.drop_last().len() && a.drop_last()[i] == sep;
                assert(a[i] == sep);
            }
        }
        lemma_split_on_no_sep(a.drop_last(), sep);
        assert(a.last() != sep) by {
            assert(a[a.len() - 1] == a.last());
        }
        assert(a.drop_last().push(a.last()) =~= a);
        assert(seq![a.drop_last()].update(0, a.drop_last().push(a.last())) =~= seq![a]);
    } else {
        assert(a =~= Seq::<char>::empty());
    }
}

/// Ending a text with the separator starts a new, empty piece.
pub proof fn lemma_split_on_push_sep(x: Seq<char>, sep: char)
    ensures
        split_on(x.push(sep), sep) == split_on(x, sep).push(Seq::<char>::empty()),
{
    assert(x.push(sep).drop_last() =~= x);
}

/// Appending a text without the separator extends the last piece.
pub proof fn lemma_split_on_append(x: Seq<char>, y: Seq<char>, sep: char)
    requires
        !y.contains(sep),
    ensures
        split_on(x + y, sep).len() == split_on(x, sep).len(),
        split_on(x + y, sep) == split_on(x, sep).update(
            split_on(x, sep).len() - 1,
            split_on(x, sep).last() + y,
        ),
    decreases y.len(),
{
    lemma_split_on_nonempty(x, sep);
    let r = split_on(x, sep);
    if y.len() == 0 {
        assert(x + y =~= x);
        assert(r.last() + y =~= r.last());
        assert(r.update(r.len() - 1, r.last() + y) =~= r);
    } else {
        let y2 = y.drop_last();
        let c = y.last();
        assert(!y2.contains(sep)) by {
            if y2.contains(sep) {
                let i = choose|i: int| 0 <= i < y2.len() && y2[i] == sep;
                assert(y[i] == sep);
            }
        }
        assert(c != sep) by {
            assert(y[y.len() - 1] == c);
        }
        lemma_split_on_append(x, y2, sep);
        assert((x + y).drop_last() =~= x + y2);
        assert((x + y).last() == c);
        let r2 = split_on(x + y2, sep);
        assert(r2 == r.update(r.len() - 1, r.last() + y2));
        assert(r2.last() == r.last() + y2);
        assert(r2.last().push(c) =~= r.last() + y);
        assert(r2.update(r2.len() - 1, r2.last().push(c)) =~= r.update(r.len() - 1, r.last() + y));
    }
}

/// Whether `w` is a word: non-empty, without whitespace.
pub open spec fn is_word(w: Seq<char>) -> bool {
    w.len() > 0 && forall|i: int| 0 <= i < w.len() ==> !is_space(#[trigger] w[i])
}

proof fn lemma_words_single(w: Seq<char>)
    requires
        is_word(w),
    ensures
        words(w) == seq![w],
    decreases w.len(),
{
    if w.len() == 1 {
        assert(w.drop_last() =~= Seq::<char>::empty());
        assert(w.last() == w[0]);
        assert(!is_space(w[0]));
        assert(words(w.drop_last()) == Seq::<Seq<char>>::empty());
        assert(words(w) == words(w.drop_last()).push(seq![w.last()]));
        assert(seq![w.last()] =~= w);
        assert(Seq::<Seq<char>>::empty().push(w) =~= seq![w]);
    } else {
        let p = w.drop_last();
        assert(is_word(p)) by {
            assert forall|i: int| 0 <= i < p.len() implies !is_space(#[trigger] p[i]) by {
                assert(p[i] == w[i]);
            }
        }
        lemma_words_single(p);
        assert(!is_space(w[w.len() - 2]));
        assert(!is_space(w.last())) by {
            assert(w[w.len() - 1] == w.last());
        }
        assert(p.push(w.last()) =~= w);
        assert(w.drop_last() == p);
        assert(words(w) == words(p).update(words(p).len() - 1, words(p).last().push(w.last())));
        assert(seq![p].update(0, p.push(w.last())) =~= seq![w]);
    }
}

proof fn lemma_words_after_space(x: Seq<char>, w: Seq<char>)
    requires
        is_word(w),
    ensures
        words(x.push(' ') + w) == words(x).push(w),
    decreases w.len(),
{
    assert(x.push(' ').drop_last() =~= x);
    assert(words(x.push(' ')) == words(x));
    if w.len() == 1 {
        let s = x.push(' ') + w;
        assert(s.drop_last() =~= x.push(' '));
        assert(s[s.len() - 2] == ' ');
        assert(s.last() == w[0]);
        assert(seq![w[0]] =~= w);
    } else {
        let p = w.drop_last();
        assert(is_word(p)) by {
            assert forall|i: int| 0 <= i < p.len() implies !is_space(#[trigger] p[i]) by {
                assert(p[i] == w[i]);
            }
        }
        lemma_words_after_space(x, p);
        let s = x.push(' ') + w;
        assert(s.drop_last() =~= x.push(' ') + p);
        assert(s[s.len() - 2] == w[w.len() - 2]);
        assert(s.last() == w[w.len() - 1]);
        assert(!is_space(w[w.len() - 2]));
        assert(!is_space(w[w.len() - 1]));
        let r = words(x).push(p);
        assert(r.last() == p);
        assert(p.push(s.last()) =~= w);
        assert(r.update(r.len() - 1, r.last().push(s.last())) =~= words(x).push(w));
    }
}

/// Words joined by single spaces split back into the same words.
pub proof fn lemma_words_of_spaced(ws: Seq<Seq<char>>)
    requires
        forall|i: int| 0 <= i < ws.len() ==> is_word(#[trigger] ws[i]),
    ensures
        words(join(ws, seq![' '])) == ws,
    decreases ws.len(),
{
    if ws.len() == 0 {
        assert(ws =~= Seq::<Seq<char>>::empty());
    } else if ws.len() == 1 {
        assert(is_word(ws[0]));
        lemma_words_single(ws[0]);
        assert(seq![ws[0]] =~= ws);
    } else {
        let pre = ws.drop_last();
        assert forall|i: int| 0 <= i < pre.len() implies is_word(#[trigger] pre[i]) by {
            assert(pre[i] == ws[i]);
        }
        lemma_words_of_spaced(pre);
        assert(is_word(ws.last())) by {
            assert(ws[ws.len() - 1] == ws.last());
        }
        lemma_words_after_space(join(pre, seq![' ']), ws.last());
        assert(join(pre, seq![' ']) + seq![' '] + ws.last() =~= join(pre, seq![' ']).push(' ') + ws.last());
        assert(pre.push(ws.last()) =~= ws);
    }
}

/// Appends `c` to `s` (`String::push`).
#[verifier::external_body]
pub(crate) fn push_char(s: &mut String, c: char)
    ensures
        final(s)@ == old(s)@.push(c),
{
    s.push(c)
}

/// The characters of `s`, in order.
pub fn chars_of(s: &str) -> (v: Vec<char>)
    ensures
        v@ == s@,
{
    let mut v: Vec<char> = Vec::new();
    for c in it: s.chars()
        invariant
            v@ == it.seq().take(it.index() as int),
            it.seq() == s@,
    {
        v.push(c);
    }
    v
}

/// Appends the characters `v` to `out`.
pub fn push_chars(out: &mut String, v: &[char])
    ensures
        final(out)@ == old(out)@ + v@,
{
    let ghost start = out@;
    for i in 0..v.len()
        invariant
            out@ == start + v@.take(i as int),
    {
        push_char(out, v[i]);
        assert(v@.take(i + 1) == v@.take(i as int).push(v@[i as int]));
    }
    assert(v@.take(v@.len() as int) == v@);
}

/// A `String` holding the characters `v`.
pub fn string_of(v: &[char]) -> (s: String)
    ensures
        s@ == v@,
{
    let mut s = String::new();
    push_chars(&mut s, v);
    s
}

/// Whether two character slices are equal.
pub fn chars_eq(a: &[char], b: &[char]) -> (r: bool)
    ensures
        r == (a@ == b@),
{
    if a.len() != b.len() {
        return false;
    }
    for i in 0..a.len()
        invariant
            a@.len() == b@.len(),
            forall|j: int| 0 <= j < i ==> a@[j] == b@[j],
    {
        if a[i] != b[i] {
            return false;
        }
    }
    assert(a@ =~= b@);
    true
}

/// The characters of `s` without leading and trailing whitespace.
pub fn trim_chars(s: &[char]) -> (r: Vec<char>)
    ensures
        r@ == trim(s@),
{
    let n = s.len();
    let mut i: usize = 0;
    assert(s@.skip(0) =~= s@);
    while i < n && char_is_space(s[i])
        invariant
            i <= n,
            n == s@.len(),
            trim_start(s@) == trim_start(s@.skip(i as int)),
        decreases n - i,
    {
        assert(s@.skip(i as int).drop_first() =~= s@.skip(i + 1));
        i = i + 1;
    }
    let ghost t = s@.skip(i as int);
    assert(trim_start(t) == t);
    let mut j: usize = n;
    while j > i && char_is_space(s[j - 1])
        invariant
            i <= j <= n,
            n == s@.len(),
            trim_end(t) == trim_end(s@.subrange(i as int, j as int)),
        decreases j,
    {
        assert(s@.subrange(i as int, j as int).drop_last() =~= s@.subrange(i as int, j - 1));
        j = j - 1;
    }
    let ghost u = s@.subrange(i as int, j as int);
    assert(trim_end(u) == u);
    let mut r: Vec<char> = Vec::new();
    let mut k: usize = i;
    while k < j
        invariant
            i <= k <= j <= n,
            n == s@.len(),
            r@ == s@.subrange(i as int, k as int),
        decreases j - k,
    {
        r.push(s[k]);
        assert(s@.subrange(i as int, k + 1) =~= s@.subrange(i as int, k as int).push(s@[k as int]));
        k = k + 1;
    }
    r
}

/// The pieces of `s` between occurrences of `sep`.
pub fn split_chars(s: &[char], sep: char) -> (r: Vec<Vec<char>>)
    ensures
        views(r@) == split_on(s@, sep),
{
    let mut r: Vec<Vec<char>> = Vec::new();
    r.push(Vec::new());
    assert(views(r@) =~= split_on(s@.take(0), sep));
    for i in 0..s.len()
        invariant
            views(r@) == split_on(s@.take(i as int), sep),
    {
        let ghost before = views(r@);
        proof {
            lemma_split_on_nonempty(s@.take(i as int), sep);
        }
        let c = s[i];
        assert(s@.take(i + 1).drop_last() =~= s@.take(i as int));
        if c == sep {
            r.push(Vec::new());
            assert(views(r@) =~= before.push(Seq::<char>::empty()));
        } else {
            let mut last = r.pop().unwrap();
            last.push(c);
            r.push(last);
            assert(views(r@) =~= before.update(before.len() - 1, before.last().push(c)));
        }
    }
    assert(s@.take(s@.len() as int) =~= s@);
    r
}

/// The maximal runs of non-whitespace characters of `s`.
pub fn words_of(s: &[char]) -> (r: Vec<Vec<char>>)
    ensures
        views(r@) == words(s@),
{
    let mut r: Vec<Vec<char>> = Vec::new();
    let mut prev_space = true;
    assert(views(r@) =~= words(s@.take(0)));
    for i in 0..s.len()
        invariant
            views(r@) == words(s@.take(i as int)),
            prev_space == (i == 0 || is_space(s@[i - 1])),
    {
        let ghost before = views(r@);
        let c = s[i];
        assert(s@.take(i + 1).drop_last() =~= s@.take(i as int));
        assert(s@.take(i + 1).last() == c);
        if char_is_space(c) {
            prev_space = true;
        } else if !prev_space {
            proof {
                assert(s@.take(i as int).last() == s@[i - 1]);
                lemma_words_nonempty(s@.take(i as int));
                assert(s@.take(i + 1)[i - 1] == s@[i - 1]);
            }
            let mut last = r.pop().unwrap();
            last.push(c);
            r.push(last);
            assert(views(r@) =~= before.update(before.len() - 1, before.last().push(c)));
            prev_space = false;
        } else {
            let mut w: Vec<char> = Vec::new();
            w.push(c);
            r.push(w);
            proof {
                if i >= 1 {
                    assert(s@.take(i + 1)[i - 1] == s@[i - 1]);
                }
            }
            assert(views(r@) =~= before.push(seq![c]));
            prev_space = false;
        }
    }
    assert(s@.take(s@.len() as int) =~= s@);
    r
}

/// The ASCII upper-case form of `s`.
pub fn ascii_uppercase(s: &[char]) -> (r: Vec<char>)
    ensures
        r@ == ascii_upper_text(s@),
{
    let mut r: Vec<char> = Vec::new();
    for i in 0..s.len()
        invariant
            r@ =~= ascii_upper_text(s@.take(i as int)),
    {
        let c = s[i];
        let u = if 'a' <= c && c <= 'z' {
            ((c as u32) - 32) as u8 as char
        } else {
            c
        };
        assert(u == ascii_upper(c));
        r.push(u);
    }
    assert(s@.take(s@.len() as int) =~= s@);
    r
}

} // verus!
