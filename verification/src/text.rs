//! Character-level text handling: trimming, splitting and conversions
//! between `str`/`String` and character vectors.
//!
//! Every operation is stated over `Seq<char>`, the view of a string.
use vstd::prelude::*;

verus! {

broadcast use vstd::string::group_string_axioms;

/// The characters of Unicode's `White_Space` property, which is what
/// `char::is_whitespace` (and therefore `str::trim`) removes.
pub open spec fn is_space(c: char) -> bool {
    ||| c == '\t'
    ||| c == '\n'
    ||| c == '\u{0B}'
    ||| c == '\u{0C}'
    ||| c == '\r'
    ||| c == ' '
    ||| c == '\u{85}'
    ||| c == '\u{A0}'
    ||| c == '\u{1680}'
    ||| ('\u{2000}' as u32 <= c as u32 && c as u32 <= '\u{200A}' as u32)
    ||| c == '\u{2028}'
    ||| c == '\u{2029}'
    ||| c == '\u{202F}'
    ||| c == '\u{205F}'
    ||| c == '\u{3000}'
}

/// The two classes of characters that are stripped from the edges of a text.
#[derive(Clone, Copy, PartialEq, Eq, Structural, Debug)]
pub enum Edge {
    Space,
    Slash,
}

pub open spec fn in_class(e: Edge, c: char) -> bool {
    match e {
        Edge::Space => is_space(c),
        Edge::Slash => c == '/',
    }
}

/// `s` without its leading characters of class `e`.
pub open spec fn strip_start(s: Seq<char>, e: Edge) -> Seq<char>
    decreases s.len(),
{
    if s.len() > 0 && in_class(e, s[0]) {
        strip_start(s.drop_first(), e)
    } else {
        s
    }
}

/// `s` without its trailing characters of class `e`.
pub open spec fn strip_end(s: Seq<char>, e: Edge) -> Seq<char>
    decreases s.len(),
{
    if s.len() > 0 && in_class(e, s.last()) {
        strip_end(s.drop_last(), e)
    } else {
        s
    }
}

/// `s` without the characters of class `e` at either end.
pub open spec fn strip(s: Seq<char>, e: Edge) -> Seq<char> {
    strip_end(strip_start(s, e), e)
}

/// What `str::trim` gives back.
pub open spec fn trim_spec(s: Seq<char>) -> Seq<char> {
    strip(s, Edge::Space)
}

/// What `s.trim().trim_matches('/')` gives back.
pub open spec fn clean_spec(s: Seq<char>) -> Seq<char> {
    strip(trim_spec(s), Edge::Slash)
}

/// Index of the first `c` in `s`.
pub open spec fn find(s: Seq<char>, c: char) -> Option<int>
    decreases s.len(),
{
    if s.len() == 0 {
        None
    } else if s[0] == c {
        Some(0)
    } else {
        match find(s.drop_first(), c) {
            Some(i) => Some(i + 1),
            None => None,
        }
    }
}

/// What `str::split_once(c)` gives back: the text before and after the first `c`.
pub open spec fn split_once_spec(s: Seq<char>, c: char) -> Option<(Seq<char>, Seq<char>)> {
    match find(s, c) {
        Some(i) => Some((s.take(i), s.skip(i + 1))),
        None => None,
    }
}

pub open spec fn has_prefix(s: Seq<char>, p: Seq<char>) -> bool {
    p.len() <= s.len() && s.take(p.len() as int) == p
}

pub open spec fn has_suffix(s: Seq<char>, p: Seq<char>) -> bool {
    p.len() <= s.len() && s.skip(s.len() - p.len()) == p
}

/// What `str::strip_prefix(p)` gives back.
pub open spec fn strip_prefix_spec(s: Seq<char>, p: Seq<char>) -> Option<Seq<char>> {
    if has_prefix(s, p) {
        Some(s.skip(p.len() as int))
    } else {
        None
    }
}

// ---------------------------------------------------------------------------
// Lemmas
pub proof fn lemma_strip_start_skip(s: Seq<char>, e: Edge, i: int)
    requires
        0 <= i <= s.len(),
        forall|k: int| 0 <= k < i ==> in_class(e, #[trigger] s[k]),
    ensures
        strip_start(s, e) == strip_start(s.skip(i), e),
    decreases i,
{
    if i > 0 {
        assert(s.skip(1) =~= s.drop_first());
        lemma_strip_start_skip(s.drop_first(), e, i - 1);
        assert(s.drop_first().skip(i - 1) =~= s.skip(i));
    } else {
        assert(s.skip(0) =~= s);
    }
}

pub proof fn lemma_strip_end_take(s: Seq<char>, e: Edge, j: int)
    requires
        0 <= j <= s.len(),
        forall|k: int| j <= k < s.len() ==> in_class(e, #[trigger] s[k]),
    ensures
        strip_end(s, e) == strip_end(s.take(j), e),
    decreases s.len() - j,
{
    if j < s.len() {
        lemma_strip_end_take(s.drop_last(), e, j);
        assert(s.drop_last().take(j) =~= s.take(j));
    } else {
        assert(s.take(j) =~= s);
    }
}

pub proof fn lemma_strip_start_shape(s: Seq<char>, e: Edge)
    ensures
        strip_start(s, e).len() <= s.len(),
        exists|k: int| 0 <= k <= s.len() && strip_start(s, e) == s.skip(k),
        strip_start(s, e).len() > 0 ==> !in_class(e, strip_start(s, e)[0]),
    decreases s.len(),
{
    if s.len() > 0 && in_class(e, s[0]) {
        lemma_strip_start_shape(s.drop_first(), e);
        let k = choose|k: int| 0 <= k <= s.drop_first().len() && strip_start(s.drop_first(), e) == s.drop_first().skip(k);
        assert(s.drop_first().skip(k) =~= s.skip(k + 1));
    } else {
        assert(s.skip(0) =~= s);
    }
}

pub proof fn lemma_strip_end_shape(s: Seq<char>, e: Edge)
    ensures
        strip_end(s, e).len() <= s.len(),
        exists|k: int| 0 <= k <= s.len() && strip_end(s, e) == s.take(k),
        strip_end(s, e).len() > 0 ==> !in_class(e, strip_end(s, e).last()),
    decreases s.len(),
{
    if s.len() > 0 && in_class(e, s.last()) {
        lemma_strip_end_shape(s.drop_last(), e);
        let k = choose|k: int| 0 <= k <= s.drop_last().len() && strip_end(s.drop_last(), e) == s.drop_last().take(k);
        assert(s.drop_last().take(k) =~= s.take(k));
    } else {
        assert(s.take(s.len() as int) =~= s);
    }
}

/// `find` gives the first position of `c`.
pub proof fn lemma_find(s: Seq<char>, c: char)
    ensures
        match find(s, c) {
            Some(i) => 0 <= i < s.len() && s[i] == c && forall|k: int| 0 <= k < i ==> s[k] != c,
            None => forall|k: int| 0 <= k < s.len() ==> s[k] != c,
        },
    decreases s.len(),
{
    if s.len() > 0 && s[0] != c {
        lemma_find(s.drop_first(), c);
        match find(s.drop_first(), c) {
            Some(i) => {
                assert forall|k: int| 0 <= k < i + 1 implies s[k] != c by {
                    if k > 0 {
                        assert(s[k] == s.drop_first()[k - 1]);
                    }
                }
            },
            None => {
                assert forall|k: int| 0 <= k < s.len() implies s[k] != c by {
                    if k > 0 {
                        assert(s[k] == s.drop_first()[k - 1]);
                    }
                }
            },
        }
    }
}

/// The first position of `c` is what `find` gives.
pub proof fn lemma_find_at(s: Seq<char>, c: char, i: int)
    requires
        0 <= i < s.len(),
        s[i] == c,
        forall|k: int| 0 <= k < i ==> s[k] != c,
    ensures
        find(s, c) == Some(i),
{
    lemma_find(s, c);
}

/// Without `c` in `s`, `find` gives nothing.
pub proof fn lemma_find_none(s: Seq<char>, c: char)
    requires
        forall|k: int| 0 <= k < s.len() ==> s[k] != c,
    ensures
        find(s, c) is None,
{
    lemma_find(s, c);
}

// ---------------------------------------------------------------------------
// Executable operations
/// Appends `c` to `s` (`String::push`).
#[verifier::external_body]
fn push_char(s: &mut String, c: char)
    ensures
        final(s)@ == old(s)@.push(c),
{
    s.push(c);
}

/// The characters of `s`, in order.
pub fn chars_of(s: &str) -> (v: Vec<char>)
    ensures
        v@ == s@,
{
    let mut v: Vec<char> = Vec::new();
    for c in it: s.chars()
        invariant
            it.seq() == s@,
            v@ == s@.take(it.index() as int),
    {
        v.push(c);
    }
    assert(v@ =~= s@);
    v
}

/// The string made of the characters of `v`.
pub fn string_of(v: &Vec<char>) -> (s: String)
    ensures
        s@ == v@,
{
    let mut s = String::new();
    for i in 0..v.len()
        invariant
            s@ == v@.take(i as int),
    {
        push_char(&mut s, v[i]);
        assert(v@.take(i as int).push(v@[i as int]) =~= v@.take(i + 1));
    }
    assert(v@.take(v.len() as int) =~= v@);
    s
}

/// The characters `v[from..to]`.
pub fn slice_chars(v: &Vec<char>, from: usize, to: usize) -> (r: Vec<char>)
    requires
        from <= to <= v.len(),
    ensures
        r@ == v@.subrange(from as int, to as int),
{
    let mut r: Vec<char> = Vec::new();
    let mut k = from;
    while k < to
        invariant
            from <= k <= to <= v.len(),
            r@ == v@.subrange(from as int, k as int),
        decreases to - k,
    {
        r.push(v[k]);
        assert(v@.subrange(from as int, k as int).push(v@[k as int]) =~= v@.subrange(
            from as int,
            k + 1,
        ));
        k = k + 1;
    }
    r
}

/// Whether two character sequences are equal.
pub fn same_chars(a: &Vec<char>, b: &Vec<char>) -> (r: bool)
    ensures
        r == (a@ == b@),
{
    if a.len() != b.len() {
        return false;
    }
    let mut i: usize = 0;
    while i < a.len()
        invariant
            a.len() == b.len(),
            i <= a.len(),
            forall|k: int| 0 <= k < i ==> a@[k] == b@[k],
        decreases a.len() - i,
    {
        if a[i] != b[i] {
            return false;
        }
        i = i + 1;
    }
    assert(a@ =~= b@);
    true
}

/// Whether two strings hold the same text.
pub fn same_text(a: &str, b: &str) -> (r: bool)
    ensures
        r == (a@ == b@),
{
    same_chars(&chars_of(a), &chars_of(b))
}

pub fn is_space_char(c: char) -> (r: bool)
    ensures
        r == is_space(c),
{
    let n = c as u32;
    c == '\t' || c == '\n' || c == '\u{0B}' || c == '\u{0C}' || c == '\r' || c == ' ' || c
        == '\u{85}' || c == '\u{A0}' || c == '\u{1680}' || (0x2000u32 <= n && n <= 0x200Au32)
        || c == '\u{2028}' || c == '\u{2029}' || c == '\u{202F}' || c == '\u{205F}' || c
        == '\u{3000}'
}

fn in_class_char(e: Edge, c: char) -> (r: bool)
    ensures
        r == in_class(e, c),
{
    match e {
        Edge::Space => is_space_char(c),
        Edge::Slash => c == '/',
    }
}

/// `s` without the characters of class `e` at either end.
pub fn strip_chars(s: &Vec<char>, e: Edge) -> (r: Vec<char>)
    ensures
        r@ == strip(s@, e),
{
    let n = s.len();
    let mut i: usize = 0;
    while i < n && in_class_char(e, s[i])
        invariant
            i <= n,
            n == s.len(),
            forall|k: int| 0 <= k < i ==> in_class(e, #[trigger] s@[k]),
        decreases n - i,
    {
        i = i + 1;
    }
    proof {
        lemma_strip_start_skip(s@, e, i as int);
        let t = s@.skip(i as int);
        if t.len() > 0 {
            assert(t[0] == s@[i as int]);
        }
        assert(strip_start(t, e) == t);
    }
    let mut j: usize = n;
    while j > i && in_class_char(e, s[j - 1])
        invariant
            i <= j <= n,
            n == s.len(),
            forall|k: int| j <= k < n ==> in_class(e, #[trigger] s@[k]),
        decreases j,
    {
        j = j - 1;
    }
    proof {
        let t = s@.skip(i as int);
        assert forall|k: int| j - i <= k < t.len() implies in_class(e, #[trigger] t[k]) by {
            assert(t[k] == s@[k + i]);
        }
        lemma_strip_end_take(t, e, j - i);
        let u = t.take(j - i);
        assert(u =~= s@.subrange(i as int, j as int));
        if u.len() > 0 {
            assert(u.last() == s@[j - 1]);
        }
        assert(strip_end(u, e) == u);
    }
    slice_chars(s, i, j)
}

/// Text with the leading and trailing white space removed (`str::trim`).
pub fn trim(s: &str) -> (r: String)
    ensures
        r@ == trim_spec(s@),
{
    string_of(&strip_chars(&chars_of(s), Edge::Space))
}

/// `s.trim().trim_matches('/')` on characters.
pub fn clean_chars(s: &Vec<char>) -> (r: Vec<char>)
    ensures
        r@ == clean_spec(s@),
{
    strip_chars(&strip_chars(s, Edge::Space), Edge::Slash)
}

/// Position of the first `c` in `s`.
pub fn find_char(s: &Vec<char>, c: char) -> (r: Option<usize>)
    ensures
        match find(s@, c) {
            Some(i) => r == Some(i as usize),
            None => r is None,
        },
{
    let mut i: usize = 0;
    while i < s.len()
        invariant
            i <= s.len(),
            forall|k: int| 0 <= k < i ==> s@[k] != c,
        decreases s.len() - i,
    {
        if s[i] == c {
            proof {
                lemma_find_at(s@, c, i as int);
            }
            return Some(i);
        }
        i = i + 1;
    }
    proof {
        lemma_find_none(s@, c);
    }
    None
}

/// The text before and after the first `c` (`str::split_once`).
pub fn split_once_chars(s: &Vec<char>, c: char) -> (r: Option<(Vec<char>, Vec<char>)>)
    ensures
        match split_once_spec(s@, c) {
            Some((a, b)) => match r {
                Some((x, y)) => x@ == a && y@ == b,
                None => false,
            },
            None => r is None,
        },
{
    proof {
        lemma_find(s@, c);
    }
    match find_char(s, c) {
        Some(i) => {
            let a = slice_chars(s, 0, i);
            let b = slice_chars(s, i + 1, s.len());
            assert(a@ =~= s@.take(i as int));
            assert(b@ =~= s@.skip(i + 1));
            Some((a, b))
        },
        None => None,
    }
}

/// The text after the prefix `p`, if `s` starts with it (`str::strip_prefix`).
pub fn strip_prefix_chars(s: &Vec<char>, p: &Vec<char>) -> (r: Option<Vec<char>>)
    ensures
        match strip_prefix_spec(s@, p@) {
            Some(t) => r is Some && r->0@ == t,
            None => r is None,
        },
{
    if p.len() > s.len() {
        return None;
    }
    let head = slice_chars(s, 0, p.len());
    assert(head@ =~= s@.take(p.len() as int));
    if same_chars(&head, p) {
        let rest = slice_chars(s, p.len(), s.len());
        assert(rest@ =~= s@.skip(p.len() as int));
        Some(rest)
    } else {
        None
    }
}


// ---------------------------------------------------------------------------
// Words, lines and numbers
/// Length of the run of non-space characters at the start of `s`.
pub open spec fn word_len(s: Seq<char>) -> nat
    decreases s.len(),
{
    if s.len() > 0 && !is_space(s[0]) {
        1 + word_len(s.drop_first())
    } else {
        0
    }
}

pub proof fn lemma_word_len(s: Seq<char>)
    ensures
        word_len(s) <= s.len(),
        forall|k: int| 0 <= k < word_len(s) ==> !is_space(#[trigger] s[k]),
        word_len(s) < s.len() ==> is_space(s[word_len(s) as int]),
    decreases s.len(),
{
    if s.len() > 0 && !is_space(s[0]) {
        lemma_word_len(s.drop_first());
        assert forall|k: int| 0 <= k < word_len(s) implies !is_space(#[trigger] s[k]) by {
            if k > 0 {
                assert(s[k] == s.drop_first()[k - 1]);
            }
        }
        if word_len(s) < s.len() {
            assert(s[word_len(s) as int] == s.drop_first()[word_len(s.drop_first()) as int]);
        }
    }
}

pub proof fn lemma_word_len_at(s: Seq<char>, m: int)
    requires
        0 <= m <= s.len(),
        forall|k: int| 0 <= k < m ==> !is_space(#[trigger] s[k]),
        m < s.len() ==> is_space(s[m]),
    ensures
        word_len(s) == m,
    decreases m,
{
    if m > 0 {
        assert(!is_space(s[0]));
        assert forall|k: int| 0 <= k < m - 1 implies !is_space(#[trigger] s.drop_first()[k]) by {
            assert(s.drop_first()[k] == s[k + 1]);
        }
        if m - 1 < s.drop_first().len() {
            assert(s.drop_first()[m - 1] == s[m]);
        }
        lemma_word_len_at(s.drop_first(), m - 1);
    }
}

/// The white-space separated words of `s` (`str::split_whitespace`).
pub open spec fn words(s: Seq<char>) -> Seq<Seq<char>>
    decreases s.len(),
{
    let t = strip_start(s, Edge::Space);
    if t.len() == 0 {
        Seq::empty()
    } else {
        proof {
            lemma_strip_start_shape(s, Edge::Space);
            lemma_word_len(t);
            lemma_word_len_at(t.take(1), 1);
        }
        let n = word_len(t);
        if n == 0 {
            Seq::empty()
        } else {
            seq![t.take(n as int)] + words(t.skip(n as int))
        }
    }
}

pub open spec fn views(v: Seq<Vec<char>>) -> Seq<Seq<char>> {
    v.map_values(|w: Vec<char>| w@)
}

/// The white-space separated words of `s` (`str::split_whitespace`).
pub fn words_chars(s: &Vec<char>) -> (r: Vec<Vec<char>>)
    ensures
        views(r@) == words(s@),
{
    let n = s.len();
    let mut out: Vec<Vec<char>> = Vec::new();
    let mut i: usize = 0;
    assert(s@.skip(0) =~= s@);
    while i < n
        invariant
            i <= n,
            n == s.len(),
            views(out@) + words(s@.skip(i as int)) == words(s@),
        decreases n - i,
    {
        let mut j = i;
        while j < n && is_space_char(s[j])
            invariant
                i <= j <= n,
                n == s.len(),
                forall|k: int| i <= k < j ==> is_space(#[trigger] s@[k]),
            decreases n - j,
        {
            j = j + 1;
        }
        let ghost rest = s@.skip(i as int);
        proof {
            assert forall|k: int| 0 <= k < j - i implies in_class(Edge::Space, #[trigger] rest[k]) by {
                assert(rest[k] == s@[k + i]);
            }
            lemma_strip_start_skip(rest, Edge::Space, j - i);
            assert(rest.skip(j - i) =~= s@.skip(j as int));
            let t = s@.skip(j as int);
            if t.len() > 0 {
                assert(t[0] == s@[j as int]);
            }
            assert(strip_start(t, Edge::Space) == t);
        }
        if j == n {
            proof {
                assert(s@.skip(j as int).len() == 0);
                assert(words(rest) == Seq::<Seq<char>>::empty());
                assert(s@.skip(n as int).len() == 0);
                assert(words(s@.skip(n as int)) == Seq::<Seq<char>>::empty());
            }
            i = n;
        } else {
            let mut k = j;
            while k < n && !is_space_char(s[k])
                invariant
                    j <= k <= n,
                    n == s.len(),
                    forall|q: int| j <= q < k ==> !is_space(#[trigger] s@[q]),
                decreases n - k,
            {
                k = k + 1;
            }
            let w = slice_chars(s, j, k);
            proof {
                let t = s@.skip(j as int);
                assert forall|q: int| 0 <= q < k - j implies !is_space(#[trigger] t[q]) by {
                    assert(t[q] == s@[q + j]);
                }
                if k - j < t.len() {
                    assert(t[k - j] == s@[k as int]);
                }
                lemma_word_len_at(t, k - j);
                assert(t.take(k - j) =~= w@);
                assert(t.skip(k - j) =~= s@.skip(k as int));
                assert(words(rest) == seq![w@] + words(s@.skip(k as int)));
            }
            let ghost before = out@;
            out.push(w);
            proof {
                assert(views(out@) =~= views(before).push(w@));
                assert(views(out@) + words(s@.skip(k as int)) =~= views(before) + words(rest));
            }
            i = k;
        }
    }
    proof {
        assert(s@.skip(n as int).len() == 0);
        assert(words(s@.skip(n as int)) == Seq::<Seq<char>>::empty());
        assert(views(out@) + Seq::<Seq<char>>::empty() =~= views(out@));
    }
    out
}

/// `s` without one trailing carriage return.
pub open spec fn drop_cr(s: Seq<char>) -> Seq<char> {
    if s.len() > 0 && s.last() == '\r' {
        s.drop_last()
    } else {
        s
    }
}

/// The lines of `s` (`str::lines`): split at `\n`, a `\r` before it dropped,
/// and no empty line after a final `\n`.
pub open spec fn lines(s: Seq<char>) -> Seq<Seq<char>>
    decreases s.len(),
{
    if s.len() == 0 {
        Seq::empty()
    } else {
        match find(s, '\n') {
            Some(i) => {
                proof {
                    lemma_find(s, '\n');
                }
                if 0 <= i < s.len() {
                    seq![drop_cr(s.take(i))] + lines(s.skip(i + 1))
                } else {
                    Seq::empty()
                }
            },
            None => seq![s],
        }
    }
}

/// The lines of `s` (`str::lines`).
pub fn lines_chars(s: &Vec<char>) -> (r: Vec<Vec<char>>)
    ensures
        views(r@) == lines(s@),
{
    let n = s.len();
    let mut out: Vec<Vec<char>> = Vec::new();
    let mut i: usize = 0;
    assert(s@.skip(0) =~= s@);
    while i < n
        invariant
            i <= n,
            n == s.len(),
            views(out@) + lines(s@.skip(i as int)) == lines(s@),
        decreases n - i,
    {
        let ghost rest = s@.skip(i as int);
        let mut j = i;
        while j < n && s[j] != '\n'
            invariant
                i <= j <= n,
                n == s.len(),
                forall|k: int| i <= k < j ==> s@[k] != '\n',
            decreases n - j,
        {
            j = j + 1;
        }
        let ghost before = out@;
        if j == n {
            proof {
                assert forall|k: int| 0 <= k < rest.len() implies rest[k] != '\n' by {
                    assert(rest[k] == s@[k + i]);
                }
                lemma_find_none(rest, '\n');
                assert(lines(rest) == seq![rest]);
            }
            let line = slice_chars(s, i, n);
            assert(line@ =~= rest);
            out.push(line);
            proof {
                assert(views(out@) =~= views(before).push(line@));
                assert(s@.skip(n as int).len() == 0);
                assert(views(out@) + lines(s@.skip(n as int)) =~= views(before) + lines(rest));
            }
            i = n;
        } else {
            let mut end = j;
            if end > i && s[end - 1] == '\r' {
                end = end - 1;
            }
            let line = slice_chars(s, i, end);
            proof {
                assert forall|k: int| 0 <= k < j - i implies rest[k] != '\n' by {
                    assert(rest[k] == s@[k + i]);
                }
                assert(rest[j - i] == s@[j as int]);
                lemma_find_at(rest, '\n', j - i);
                assert(rest.skip(j - i + 1) =~= s@.skip(j + 1));
                assert(line@ =~= drop_cr(rest.take(j - i)));
                assert(lines(rest) == seq![line@] + lines(s@.skip(j + 1)));
            }
            out.push(line);
            proof {
                assert(views(out@) =~= views(before).push(line@));
                assert(views(out@) + lines(s@.skip(j + 1)) =~= views(before) + lines(rest));
            }
            i = j + 1;
        }
    }
    proof {
        assert(s@.skip(n as int).len() == 0);
        assert(views(out@) + Seq::<Seq<char>>::empty() =~= views(out@));
    }
    out
}

pub open spec fn is_digit(c: char) -> bool {
    '0' as u32 <= c as u32 && c as u32 <= '9' as u32
}

/// Value of the decimal numeral `s`.
pub open spec fn digits_value(s: Seq<char>) -> int
    decreases s.len(),
{
    if s.len() == 0 {
        0
    } else {
        digits_value(s.drop_last()) * 10 + (s.last() as u32 - '0' as u32)
    }
}

pub open spec fn all_digits(s: Seq<char>) -> bool {
    forall|k: int| 0 <= k < s.len() ==> is_digit(#[trigger] s[k])
}

/// The digits of a numeral without its optional leading `+`.
pub open spec fn unsigned_part(s: Seq<char>) -> Seq<char> {
    if s.len() > 0 && s[0] == '+' {
        s.drop_first()
    } else {
        s
    }
}

/// What `s.parse::<u32>()` gives back: an optional `+`, then one or more
/// decimal digits whose value fits in a `u32`.
pub open spec fn parse_u32_spec(s: Seq<char>) -> Option<u32> {
    let d = unsigned_part(s);
    if d.len() > 0 && all_digits(d) && digits_value(d) <= u32::MAX {
        Some(digits_value(d) as u32)
    } else {
        None
    }
}

pub proof fn lemma_digits_value_grows(d: Seq<char>, k: int)
    requires
        all_digits(d),
        0 <= k <= d.len(),
    ensures
        0 <= digits_value(d.take(k)) <= digits_value(d),
    decreases d.len(),
{
    if d.len() > 0 {
        assert(all_digits(d.drop_last()));
        if k == d.len() {
            assert(d.take(k) =~= d);
            lemma_digits_value_grows(d.drop_last(), k - 1);
        } else {
            lemma_digits_value_grows(d.drop_last(), k);
            assert(d.drop_last().take(k) =~= d.take(k));
            lemma_digits_value_grows(d.drop_last(), d.len() - 1);
            assert(d.drop_last().take(d.len() - 1) =~= d.drop_last());
        }
        assert(is_digit(d.last()));
    } else {
        assert(d.take(k) =~= d);
    }
}

/// `s.parse::<u32>()` for a character sequence.
pub fn parse_u32_chars(s: &Vec<char>) -> (r: Option<u32>)
    ensures
        r == parse_u32_spec(s@),
{
    let start: usize = if s.len() > 0 && s[0] == '+' {
        1
    } else {
        0
    };
    let ghost d = unsigned_part(s@);
    assert(d =~= s@.skip(start as int));
    if start == s.len() {
        return None;
    }
    let mut acc: u64 = 0;
    let mut i = start;
    assert(s@.subrange(start as int, start as int) =~= Seq::<char>::empty());
    while i < s.len()
        invariant
            start <= i <= s.len(),
            d == s@.skip(start as int),
            d == unsigned_part(s@),
            acc == digits_value(s@.subrange(start as int, i as int)),
            acc <= u32::MAX,
            forall|k: int| start <= k < i ==> is_digit(#[trigger] s@[k]),
        decreases s.len() - i,
    {
        let c = s[i];
        let cv = c as u32;
        if cv < 48 || cv > 57 {
            proof {
                assert(d[i - start] == s@[i as int]);
                assert(!is_digit(d[i - start]));
                assert(!all_digits(d));
            }
            return None;
        }
        proof {
            let p = s@.subrange(start as int, i + 1);
            assert(p.drop_last() =~= s@.subrange(start as int, i as int));
            assert(p.last() == c);
            assert(digits_value(p) == digits_value(s@.subrange(start as int, i as int)) * 10 + (cv - 48));
        }
        acc = acc * 10 + (cv - 48) as u64;
        assert(acc == digits_value(s@.subrange(start as int, i + 1)));
        if acc > 0xffff_ffffu64 {
            proof {
                if all_digits(d) {
                    lemma_digits_value_grows(d, i + 1 - start);
                    assert(d.take(i + 1 - start) =~= s@.subrange(start as int, i + 1));
                }
            }
            return None;
        }
        i = i + 1;
    }
    proof {
        assert(s@.subrange(start as int, s.len() as int) =~= d);
        assert forall|k: int| 0 <= k < d.len() implies is_digit(#[trigger] d[k]) by {
            assert(d[k] == s@[k + start]);
        }
    }
    Some(acc as u32)
}

} // verus!
