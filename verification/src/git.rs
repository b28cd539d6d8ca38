//! Reading what Git prints: its version line and `git ls-remote` listings.
use vstd::prelude::*;

use crate::text::{
    chars_of, lines, lines_chars, parse_u32_chars, parse_u32_spec, split_once_chars,
    split_once_spec, string_of, views, words, words_chars,
};

verus! {

broadcast use vstd::string::group_string_axioms;

/// The oldest Git release that the remote helper works with.
pub const MIN_GIT_MAJOR: u32 = 2;

pub const MIN_GIT_MINOR: u32 = 20;

/// The `(major, minor)` version that a word such as `2.39.2` spells: the
/// two first `.`-separated parts, both numerals that fit a `u32`.
pub open spec fn version_pair(w: Seq<char>) -> Option<(u32, u32)> {
    match split_once_spec(w, '.') {
        None => None,
        Some((a, rest)) => {
            let b = match split_once_spec(rest, '.') {
                Some((b, _)) => b,
                None => rest,
            };
            match (parse_u32_spec(a), parse_u32_spec(b)) {
                (Some(x), Some(y)) => Some((x, y)),
                _ => None,
            }
        },
    }
}

/// The version that the first word spelling one spells.
pub open spec fn first_version(ws: Seq<Seq<char>>) -> Option<(u32, u32)>
    decreases ws.len(),
{
    if ws.len() == 0 {
        None
    } else {
        match version_pair(ws[0]) {
            Some(v) => Some(v),
            None => first_version(ws.drop_first()),
        }
    }
}

/// `(a, b) >= (c, d)` in the order of versions.
pub open spec fn version_ge(v: (u32, u32), minimum: (u32, u32)) -> bool {
    v.0 > minimum.0 || (v.0 == minimum.0 && v.1 >= minimum.1)
}

/// Whether a `git --version` line names a version at least `minimum`: the
/// first word of the line that spells a version decides.
pub open spec fn version_at_least_spec(line: Seq<char>, minimum: (u32, u32)) -> bool {
    match first_version(words(line)) {
        Some(v) => version_ge(v, minimum),
        None => false,
    }
}

/// A line that passes a minimum passes every lower one.
pub proof fn lemma_version_monotone(line: Seq<char>, low: (u32, u32), high: (u32, u32))
    requires
        version_ge(high, low),
        version_at_least_spec(line, high),
    ensures
        version_at_least_spec(line, low),
{
}

pub proof fn lemma_first_version_skip(ws: Seq<Seq<char>>, i: int)
    requires
        0 <= i <= ws.len(),
        forall|k: int| 0 <= k < i ==> version_pair(#[trigger] ws[k]) is None,
    ensures
        first_version(ws) == first_version(ws.skip(i)),
    decreases i,
{
    if i > 0 {
        assert(version_pair(ws[0]) is None);
        assert forall|k: int| 0 <= k < i - 1 implies version_pair(
            #[trigger] ws.drop_first()[k],
        ) is None by {
            assert(ws.drop_first()[k] == ws[k + 1]);
        }
        lemma_first_version_skip(ws.drop_first(), i - 1);
        assert(ws.drop_first().skip(i - 1) =~= ws.skip(i));
    } else {
        assert(ws.skip(0) =~= ws);
    }
}

/// The version that a word spells, if it spells one.
pub fn version_of_word(w: &Vec<char>) -> (r: Option<(u32, u32)>)
    ensures
        r == version_pair(w@),
{
    let (a, rest) = match split_once_chars(w, '.') {
        Some(parts) => parts,
        None => {
            return None;
        },
    };
    let b = match split_once_chars(&rest, '.') {
        Some((b, _)) => b,
        None => rest,
    };
    match (parse_u32_chars(&a), parse_u32_chars(&b)) {
        (Some(x), Some(y)) => Some((x, y)),
        _ => None,
    }
}

/// Whether the version that a `git --version` line names is at least
/// `minimum`; a line that names none fails.
pub fn git_version_at_least(line: &str, minimum: (u32, u32)) -> (r: bool)
    ensures
        r == version_at_least_spec(line@, minimum),
{
    let ws = words_chars(&chars_of(line));
    let ghost wv = views(ws@);
    let mut i: usize = 0;
    while i < ws.len()
        invariant
            i <= ws.len(),
            wv == views(ws@),
            wv == words(line@),
            forall|k: int| 0 <= k < i ==> version_pair(#[trigger] wv[k]) is None,
        decreases ws.len() - i,
    {
        if let Some(v) = version_of_word(&ws[i]) {
            proof {
                lemma_first_version_skip(wv, i as int);
                assert(wv.skip(i as int)[0] == ws@[i as int]@);
            }
            return v.0 > minimum.0 || (v.0 == minimum.0 && v.1 >= minimum.1);
        }
        i = i + 1;
    }
    proof {
        lemma_first_version_skip(wv, i as int);
        assert(wv.skip(i as int).len() == 0);
    }
    false
}

/// A ref that `git ls-remote` lists: its object name and ref name.
#[derive(Debug, PartialEq, Eq)]
pub struct RefEntry {
    pub sha: String,
    pub name: String,
}

/// The ref that one listing line names: its two first words.
pub open spec fn ref_of_line(l: Seq<char>) -> Option<(Seq<char>, Seq<char>)> {
    let w = words(l);
    if w.len() >= 2 {
        Some((w[0], w[1]))
    } else {
        None
    }
}

/// The refs that the listing lines name, in order; lines with fewer than two
/// words name none.
pub open spec fn refs_of_lines(ls: Seq<Seq<char>>) -> Seq<(Seq<char>, Seq<char>)>
    decreases ls.len(),
{
    if ls.len() == 0 {
        Seq::empty()
    } else {
        match ref_of_line(ls.last()) {
            Some(r) => refs_of_lines(ls.drop_last()).push(r),
            None => refs_of_lines(ls.drop_last()),
        }
    }
}

pub open spec fn refs_view(v: Seq<RefEntry>) -> Seq<(Seq<char>, Seq<char>)> {
    v.map_values(|e: RefEntry| (e.sha@, e.name@))
}

/// The refs that a `git ls-remote` listing names.
pub fn parse_ls_remote(raw: &str) -> (r: Vec<RefEntry>)
    ensures
        refs_view(r@) == refs_of_lines(lines(raw@)),
{
    let ls = lines_chars(&chars_of(raw));
    let ghost lv = views(ls@);
    let mut out: Vec<RefEntry> = Vec::new();
    for i in 0..ls.len()
        invariant
            lv == views(ls@),
            lv == lines(raw@),
            refs_view(out@) == refs_of_lines(lv.take(i as int)),
    {
        let ws = words_chars(&ls[i]);
        let ghost before = out@;
        proof {
            let t = lv.take(i + 1);
            assert(t.drop_last() =~= lv.take(i as int));
            assert(t.last() == ls@[i as int]@);
        }
        if ws.len() >= 2 {
            proof {
                assert(views(ws@)[0] == ws@[0]@);
                assert(views(ws@)[1] == ws@[1]@);
            }
            out.push(RefEntry { sha: string_of(&ws[0]), name: string_of(&ws[1]) });
            assert(refs_view(out@) =~= refs_view(before).push((ws@[0]@, ws@[1]@)));
        }
    }
    assert(lv.take(ls.len() as int) =~= lv);
    out
}

} // verus!
