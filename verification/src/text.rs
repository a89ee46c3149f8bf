use vstd::prelude::*;

verus! {

broadcast use vstd::string::group_string_axioms;

/// Unicode white space, the characters for which `char::is_whitespace` holds.
pub open spec fn is_whitespace(c: char) -> bool {
    ||| ('\t' <= c && c <= '\r')
    ||| c == ' '
    ||| c == '\u{85}'
    ||| c == '\u{a0}'
    ||| c == '\u{1680}'
    ||| ('\u{2000}' <= c && c <= '\u{200a}')
    ||| c == '\u{2028}'
    ||| c == '\u{2029}'
    ||| c == '\u{202f}'
    ||| c == '\u{205f}'
    ||| c == '\u{3000}'
}

/// Whether `c` is white space.
pub fn whitespace(c: char) -> (r: bool)
    ensures
        r == is_whitespace(c),
{
    ('\t' <= c && c <= '\r') || c == ' ' || c == '\u{85}' || c == '\u{a0}' || c == '\u{1680}'
        || ('\u{2000}' <= c && c <= '\u{200a}') || c == '\u{2028}' || c == '\u{2029}' || c
        == '\u{202f}' || c == '\u{205f}' || c == '\u{3000}'
}

/// ASCII hexadecimal digits.
pub open spec fn is_hex_digit(c: char) -> bool {
    ||| ('0' <= c && c <= '9')
    ||| ('a' <= c && c <= 'f')
    ||| ('A' <= c && c <= 'F')
}

/// Whether `c` is an ASCII hexadecimal digit.
pub fn hex_digit(c: char) -> (r: bool)
    ensures
        r == is_hex_digit(c),
{
    ('0' <= c && c <= '9') || ('a' <= c && c <= 'f') || ('A' <= c && c <= 'F')
}

/// The code of `c` with ASCII upper-case letters mapped to lower case.
pub open spec fn ascii_fold(c: char) -> u32 {
    if 'A' <= c && c <= 'Z' {
        (c as u32 + 32) as u32
    } else {
        c as u32
    }
}

/// `a` and `b` are equal when ASCII letters are compared without regard to case
/// (what `str::eq_ignore_ascii_case` decides).
pub open spec fn eq_ignore_case(a: Seq<char>, b: Seq<char>) -> bool {
    &&& a.len() == b.len()
    &&& forall|i: int| 0 <= i < a.len() ==> #[trigger] ascii_fold(a[i]) == ascii_fold(b[i])
}

/// The characters of `s`, one by one.
pub fn chars_of(s: &str) -> (r: Vec<char>)
    ensures
        r@ == s@,
{
    let mut out: Vec<char> = Vec::new();
    for c in it: s.chars()
        invariant
            it.seq() == s@,
            out@ == it.seq().take(it.index() as int),
    {
        out.push(c);
    }
    out
}

fn fold(c: char) -> (r: u32)
    ensures
        r == ascii_fold(c),
{
    if 'A' <= c && c <= 'Z' {
        c as u32 + 32
    } else {
        c as u32
    }
}

/// Compares two strings, ASCII letters without regard to case.
pub fn eq_ignore_ascii_case(a: &str, b: &str) -> (r: bool)
    ensures
        r == eq_ignore_case(a@, b@),
{
    let ca = chars_of(a);
    let cb = chars_of(b);
    if ca.len() != cb.len() {
        return false;
    }
    let n = ca.len();
    let mut i: usize = 0;
    while i < n
        invariant
            n == ca@.len() == cb@.len(),
            ca@ == a@,
            cb@ == b@,
            i <= n,
            forall|k: int| 0 <= k < i ==> #[trigger] ascii_fold(ca@[k]) == ascii_fold(cb@[k]),
        decreases n - i,
    {
        if fold(ca[i]) != fold(cb[i]) {
            return false;
        }
        i = i + 1;
    }
    true
}

/// The number of leading characters of `s` that are not white space.
pub open spec fn word_len(s: Seq<char>) -> nat
    decreases s.len(),
{
    if s.len() == 0 || is_whitespace(s[0]) {
        0
    } else {
        1 + word_len(s.drop_first())
    }
}

/// The number of leading characters of `s` that differ from `stop`.
pub open spec fn len_before(s: Seq<char>, stop: char) -> nat
    decreases s.len(),
{
    if s.len() == 0 || s[0] == stop {
        0
    } else {
        1 + len_before(s.drop_first(), stop)
    }
}

pub proof fn lemma_word_len_bound(s: Seq<char>)
    ensures
        word_len(s) <= s.len(),
        s.len() > 0 && !is_whitespace(s[0]) ==> word_len(s) >= 1,
    decreases s.len(),
{
    if s.len() > 0 && !is_whitespace(s[0]) {
        lemma_word_len_bound(s.drop_first());
    }
}

pub proof fn lemma_len_before_bound(s: Seq<char>, stop: char)
    ensures
        len_before(s, stop) <= s.len(),
        len_before(s, stop) < s.len() ==> s[len_before(s, stop) as int] == stop,
        forall|i: int| 0 <= i < len_before(s, stop) ==> s[i] != stop,
    decreases s.len(),
{
    if s.len() > 0 && s[0] != stop {
        lemma_len_before_bound(s.drop_first(), stop);
        assert forall|i: int| 0 <= i < len_before(s, stop) implies s[i] != stop by {
            if i > 0 {
                assert(s[i] == s.drop_first()[i - 1]);
            }
        }
    }
}

/// A run of `k` non-white characters ended by white space or by the end is a word of length `k`.
pub proof fn lemma_word_len_exact(s: Seq<char>, k: nat)
    requires
        k <= s.len(),
        forall|i: int| 0 <= i < k ==> !is_whitespace(#[trigger] s[i]),
        k == s.len() || is_whitespace(s[k as int]),
    ensures
        word_len(s) == k,
    decreases k,
{
    if k > 0 {
        let t = s.drop_first();
        assert forall|i: int| 0 <= i < k - 1 implies !is_whitespace(#[trigger] t[i]) by {
            assert(t[i] == s[i + 1]);
        }
        if k < s.len() {
            assert(t[k - 1] == s[k as int]);
        }
        lemma_word_len_exact(t, (k - 1) as nat);
    }
}

/// A run of `k` characters other than `stop`, ended by `stop` or by the end, has length `k`.
pub proof fn lemma_len_before_exact(s: Seq<char>, stop: char, k: nat)
    requires
        k <= s.len(),
        forall|i: int| 0 <= i < k ==> #[trigger] s[i] != stop,
        k == s.len() || s[k as int] == stop,
    ensures
        len_before(s, stop) == k,
    decreases k,
{
    if k > 0 {
        let t = s.drop_first();
        assert forall|i: int| 0 <= i < k - 1 implies #[trigger] t[i] != stop by {
            assert(t[i] == s[i + 1]);
        }
        if k < s.len() {
            assert(t[k - 1] == s[k as int]);
        }
        lemma_len_before_exact(t, stop, (k - 1) as nat);
    }
}

/// The white-space separated words of `s`, in order, as `str::split_whitespace` yields them.
pub open spec fn words(s: Seq<char>) -> Seq<Seq<char>>
    decreases s.len(),
{
    if s.len() == 0 {
        seq![]
    } else if is_whitespace(s[0]) {
        words(s.drop_first())
    } else {
        let n = word_len(s);
        proof {
            lemma_word_len_bound(s);
        }
        seq![s.take(n as int)] + words(s.skip(n as int))
    }
}

/// The words of each line of `s`, line by line. Lines are the pieces of `s` between
/// newline characters; a carriage return before a newline is white space and so
/// belongs to no word.
pub open spec fn line_words(s: Seq<char>) -> Seq<Seq<Seq<char>>>
    decreases s.len(),
{
    let n = len_before(s, '\n');
    proof {
        lemma_len_before_bound(s, '\n');
    }
    if n >= s.len() {
        seq![words(s)]
    } else {
        seq![words(s.take(n as int))] + line_words(s.skip(n + 1 as int))
    }
}

/// Text that ends with a newline, followed by more text: its lines are those of the first
/// part (but for the empty one after its last newline), then those of the second.
pub proof fn lemma_line_words_concat(a: Seq<char>, b: Seq<char>)
    requires
        a.len() > 0,
        a.last() == '\n',
    ensures
        line_words(a + b) == line_words(a).drop_last() + line_words(b),
    decreases a.len(),
{
    let n = len_before(a, '\n');
    lemma_len_before_bound(a, '\n');
    if n >= a.len() {
        assert(a[a.len() - 1] == a.last());
    }
    assert(n < a.len());
    let ab = a + b;
    assert forall|i: int| 0 <= i < n implies #[trigger] ab[i] != '\n' by {
        assert(ab[i] == a[i]);
    }
    assert(ab[n as int] == a[n as int]);
    lemma_len_before_exact(ab, '\n', n);
    assert(ab.take(n as int) =~= a.take(n as int));
    let rest = a.skip(n + 1 as int);
    assert(ab.skip(n + 1 as int) =~= rest + b);
    if n + 1 == a.len() {
        assert(rest + b =~= b);
        let e = Seq::<char>::empty();
        lemma_len_before_bound(e, '\n');
        assert(rest =~= e);
        assert(line_words(rest) == seq![words(e)]);
        assert(line_words(a).drop_last() =~= seq![words(a.take(n as int))]);
    } else {
        assert(rest.last() == a.last());
        lemma_line_words_concat(rest, b);
        lemma_len_before_bound(rest, '\n');
        assert(line_words(a).drop_last() =~= seq![words(a.take(n as int))] + line_words(
            rest,
        ).drop_last());
        assert(line_words(ab) =~= line_words(a).drop_last() + line_words(b));
    }
}

/// The part of `s` before the first `sep`, if `s` holds one (what `str::split_once`
/// gives as the first half).
pub open spec fn before_first(s: Seq<char>, sep: char) -> Option<Seq<char>> {
    if len_before(s, sep) < s.len() {
        Some(s.take(len_before(s, sep) as int))
    } else {
        None
    }
}

/// The text of `s` between character positions `from` and `to`, as a `String`.
fn piece(s: &str, from: usize, to: usize) -> (r: String)
    requires
        from <= to <= s@.len(),
    ensures
        r@ == s@.subrange(from as int, to as int),
{
    s.substring_char(from, to).to_owned()
}

/// The words of the characters `lo..hi` of `s`.
fn words_between(s: &str, cs: &Vec<char>, lo: usize, hi: usize) -> (r: Vec<String>)
    requires
        cs@ == s@,
        lo <= hi <= cs@.len(),
    ensures
        r.deep_view() == words(s@.subrange(lo as int, hi as int)),
{
    let mut out: Vec<String> = Vec::new();
    let mut i = lo;
    while i < hi
        invariant
            cs@ == s@,
            lo <= i <= hi <= cs@.len(),
            words(s@.subrange(lo as int, hi as int)) == out.deep_view() + words(
                s@.subrange(i as int, hi as int),
            ),
        decreases hi - i,
    {
        let ghost rest = s@.subrange(i as int, hi as int);
        if whitespace(cs[i]) {
            assert(rest.drop_first() =~= s@.subrange(i + 1, hi as int));
            i = i + 1;
        } else {
            let mut j = i + 1;
            while j < hi && !whitespace(cs[j])
                invariant
                    cs@ == s@,
                    i < j <= hi <= cs@.len(),
                    forall|k: int| i <= k < j ==> !is_whitespace(#[trigger] cs@[k]),
                decreases hi - j,
            {
                j = j + 1;
            }
            proof {
                assert forall|k: int| 0 <= k < j - i implies !is_whitespace(#[trigger] rest[k]) by {
                    assert(rest[k] == cs@[i + k]);
                }
                if j < hi {
                    assert(rest[j - i] == cs@[j as int]);
                }
                lemma_word_len_exact(rest, (j - i) as nat);
                assert(rest.take(j - i) =~= s@.subrange(i as int, j as int));
                assert(rest.skip(j - i) =~= s@.subrange(j as int, hi as int));
            }
            let w = piece(s, i, j);
            let ghost before = out.deep_view();
            out.push(w);
            assert(out.deep_view() =~= before.push(w@));
            i = j;
        }
    }
    assert(words(s@.subrange(hi as int, hi as int)) =~= Seq::<Seq<char>>::empty());
    assert(out.deep_view() + Seq::<Seq<char>>::empty() =~= out.deep_view());
    out
}

/// The white-space separated words of each line of `s` (see `line_words`).
pub fn split_lines_words(s: &str) -> (r: Vec<Vec<String>>)
    ensures
        r.deep_view() == line_words(s@),
{
    let cs = chars_of(s);
    let n = cs.len();
    let mut out: Vec<Vec<String>> = Vec::new();
    let mut start: usize = 0;
    assert(s@.subrange(0, n as int) =~= s@);
    loop
        invariant
            cs@ == s@,
            n == cs@.len(),
            start <= n,
            line_words(s@) == out.deep_view() + line_words(s@.subrange(start as int, n as int)),
        decreases n - start,
    {
        let ghost rest = s@.subrange(start as int, n as int);
        let mut j = start;
        while j < n && cs[j] != '\n'
            invariant
                cs@ == s@,
                n == cs@.len(),
                start <= j <= n,
                forall|k: int| start <= k < j ==> #[trigger] cs@[k] != '\n',
            decreases n - j,
        {
            j = j + 1;
        }
        proof {
            assert forall|k: int| 0 <= k < j - start implies #[trigger] rest[k] != '\n' by {
                assert(rest[k] == cs@[start + k]);
            }
            if j < n {
                assert(rest[j - start] == cs@[j as int]);
            }
            lemma_len_before_exact(rest, '\n', (j - start) as nat);
            assert(rest.take(j - start) =~= s@.subrange(start as int, j as int));
        }
        let w = words_between(s, &cs, start, j);
        let ghost before = out.deep_view();
        out.push(w);
        assert(out.deep_view() =~= before.push(w.deep_view()));
        if j == n {
            assert(rest =~= s@.subrange(start as int, j as int));
            assert(line_words(rest) =~= seq![words(rest)]);
            return out;
        }
        proof {
            assert(rest.skip(j - start + 1) =~= s@.subrange(j + 1, n as int));
        }
        start = j + 1;
    }
}

/// The ASCII hexadecimal digits are exactly `0`-`9`, `a`-`f` and `A`-`F`.
pub proof fn law_hex_digits(c: char)
    ensures
        is_hex_digit(c) <==> (c == '0' || c == '1' || c == '2' || c == '3' || c == '4' || c == '5'
            || c == '6' || c == '7' || c == '8' || c == '9' || c == 'a' || c == 'b' || c == 'c'
            || c == 'd' || c == 'e' || c == 'f' || c == 'A' || c == 'B' || c == 'C' || c == 'D'
            || c == 'E' || c == 'F'),
{
}

/// `before_first` splits at the first `sep`: what it gives, then `sep`, starts `s`, and holds
/// no `sep`; it gives nothing exactly when `s` holds no `sep`.
pub proof fn law_before_first(s: Seq<char>, sep: char)
    ensures
        before_first(s, sep) is None <==> !s.contains(sep),
        before_first(s, sep) matches Some(p) ==> {
            &&& p.len() < s.len()
            &&& s[p.len() as int] == sep
            &&& p == s.take(p.len() as int)
            &&& !p.contains(sep)
        },
{
    lemma_len_before_bound(s, sep);
    let n = len_before(s, sep);
    if n < s.len() {
        let p = s.take(n as int);
        if p.contains(sep) {
            let k = choose|k: int| 0 <= k < p.len() && p[k] == sep;
            assert(p[k] == s[k]);
        }
    } else if s.contains(sep) {
        let k = choose|k: int| 0 <= k < s.len() && s[k] == sep;
    }
}

/// The part of `s` before the first `sep`, if `s` holds one.
pub fn split_once_first(s: &str, sep: char) -> (r: Option<String>)
    ensures
        r.is_some() == before_first(s@, sep).is_some(),
        r matches Some(p) ==> p@ == before_first(s@, sep).unwrap(),
{
    let cs = chars_of(s);
    let n = cs.len();
    let mut j: usize = 0;
    while j < n && cs[j] != sep
        invariant
            cs@ == s@,
            n == cs@.len(),
            j <= n,
            forall|k: int| 0 <= k < j ==> #[trigger] cs@[k] != sep,
        decreases n - j,
    {
        j = j + 1;
    }
    proof {
        lemma_len_before_exact(s@, sep, j as nat);
    }
    if j < n {
        Some(piece(s, 0, j))
    } else {
        None
    }
}

} // verus!
