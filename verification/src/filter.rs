//! The line filter: runs a regular expression over a snapshot of lines,
//! flattens the matches, drops the ones under a minimum length, removes
//! duplicates keeping first-occurrence order, trims each survivor, and joins
//! them with newlines.

use vstd::prelude::*;

use crate::text::{join_nl, join_with_newlines, split_nl, split_on_newline, trim, trim_spec};

verus! {

/// Declares `regex::Regex`, the engine's compiled-expression type, so that
/// a value of it can be held in a field; it stays opaque here.
#[verifier::external_type_specification]
#[verifier::external_body]
pub struct ExRegex(regex::Regex);

/// What `regex::Regex::find_iter` yields: the non-overlapping matches of the
/// pattern in the haystack, leftmost first. A function of the pattern and the
/// haystack alone.
pub uninterp spec fn regex_found(pattern: Seq<char>, hay: Seq<char>) -> Seq<Seq<char>>;

/// Whether `regex::Regex::new` accepts the pattern: a function of the
/// pattern text alone.
pub uninterp spec fn pattern_compiles(pattern: Seq<char>) -> bool;

/// A compiled regular expression, remembering the pattern text it was
/// compiled from.
pub struct CompiledRegex {
    pattern: String,
    inner: regex::Regex,
}

impl CompiledRegex {
    /// The pattern this expression was compiled from.
    pub closed spec fn pattern_view(&self) -> Seq<char> {
        self.pattern@
    }

    /// Relies on `regex::Regex::new`: compiles the pattern, or reports it
    /// invalid; which of the two happens depends on the pattern text alone.
    #[verifier::external_body]
    pub fn compile(pattern: &str) -> (r: Option<CompiledRegex>)
        ensures
            r is Some <==> pattern_compiles(pattern@),
            r is Some ==> r.unwrap().pattern_view() == pattern@,
    {
        match regex::Regex::new(pattern) {
            Ok(re) => Some(CompiledRegex { pattern: pattern.to_string(), inner: re }),
            Err(_) => None,
        }
    }

    /// Relies on `regex::Regex::find_iter`: the non-overlapping matches of
    /// the pattern, leftmost first, a function of pattern and haystack alone.
    #[verifier::external_body]
    pub fn find_all(&self, hay: &str) -> (r: Vec<String>)
        ensures
            r.deep_view() == regex_found(self.pattern_view(), hay@),
    {
        self.inner.find_iter(hay).map(|m| m.as_str().to_string()).collect()
    }
}

/// Every match of the pattern in every line, in line order.
pub open spec fn all_matches(pattern: Seq<char>, lines: Seq<Seq<char>>) -> Seq<Seq<char>> {
    lines.map_values(|l: Seq<char>| regex_found(pattern, l)).flatten()
}

/// The elements of `ms` that are at least `min` characters long.
pub open spec fn keep_long(ms: Seq<Seq<char>>, min: nat) -> Seq<Seq<char>> {
    ms.filter(|m: Seq<char>| m.len() >= min)
}

/// `ms` with duplicates removed, keeping the first occurrence of each
/// element.
pub open spec fn dedup_first(ms: Seq<Seq<char>>) -> Seq<Seq<char>>
    decreases ms.len(),
{
    if ms.len() == 0 {
        Seq::<Seq<char>>::empty()
    } else {
        let p = dedup_first(ms.drop_last());
        if p.contains(ms.last()) {
            p
        } else {
            p.push(ms.last())
        }
    }
}

/// Each element trimmed of surrounding whitespace.
pub open spec fn trim_all(ms: Seq<Seq<char>>) -> Seq<Seq<char>> {
    ms.map_values(|m: Seq<char>| trim_spec(m))
}

/// The distinct matches that survive the length filter, in first-occurrence
/// order, before trimming.
pub open spec fn candidate_matches(pattern: Seq<char>, lines: Seq<Seq<char>>, min: nat) -> Seq<
    Seq<char>,
> {
    dedup_first(keep_long(all_matches(pattern, lines), min))
}

/// The filter's output entries: the candidates, each trimmed.
pub open spec fn filtered_entries(pattern: Seq<char>, lines: Seq<Seq<char>>, min: nat) -> Seq<
    Seq<char>,
> {
    trim_all(candidate_matches(pattern, lines, min))
}

/// The filter's output: its entries joined with newlines.
pub open spec fn filtered_text(pattern: Seq<char>, lines: Seq<Seq<char>>, min: nat) -> Seq<char> {
    join_nl(filtered_entries(pattern, lines, min))
}

proof fn lemma_keep_long_push(ms: Seq<Seq<char>>, x: Seq<char>, min: nat)
    ensures
        x.len() >= min ==> keep_long(ms.push(x), min) == keep_long(ms, min).push(x),
        x.len() < min ==> keep_long(ms.push(x), min) == keep_long(ms, min),
{
    reveal(Seq::filter);
    assert(ms.push(x).drop_last() =~= ms);
    assert(ms.push(x).last() == x);
}

proof fn lemma_nonempty_push(ls: Seq<Seq<char>>, x: Seq<char>)
    ensures
        x.len() > 0 ==> nonempty(ls.push(x)) == nonempty(ls).push(x),
        x.len() == 0 ==> nonempty(ls.push(x)) == nonempty(ls),
{
    reveal(Seq::filter);
    assert(ls.push(x).drop_last() =~= ls);
    assert(ls.push(x).last() == x);
}

proof fn lemma_dedup_first_push(ms: Seq<Seq<char>>, x: Seq<char>)
    ensures
        dedup_first(ms).contains(x) ==> dedup_first(ms.push(x)) == dedup_first(ms),
        !dedup_first(ms).contains(x) ==> dedup_first(ms.push(x)) == dedup_first(ms).push(x),
{
    assert(ms.push(x).drop_last() =~= ms);
    assert(ms.push(x).last() == x);
}

proof fn lemma_all_matches_push(pattern: Seq<char>, lines: Seq<Seq<char>>, l: Seq<char>)
    ensures
        all_matches(pattern, lines.push(l)) == all_matches(pattern, lines) + regex_found(
            pattern,
            l,
        ),
{
    let f = |x: Seq<char>| regex_found(pattern, x);
    assert(lines.push(l).map_values(f) =~= lines.map_values(f).push(f(l)));
    lines.map_values(f).lemma_flatten_push(f(l));
}

/// True when some element of `v` reads the same as `x`.
fn contains_string(v: &Vec<String>, x: &String) -> (r: bool)
    ensures
        r == v.deep_view().contains(x@),
{
    let mut k: usize = 0;
    while k < v.len()
        invariant
            0 <= k <= v@.len(),
            forall|j: int| 0 <= j < k ==> v.deep_view()[j] != x@,
        decreases v@.len() - k,
    {
        if v[k] == *x {
            assert(v.deep_view()[k as int] == x@);
            return true;
        }
        k = k + 1;
    }
    false
}

/// Finds every match of the expression in every line, drops matches shorter
/// than `min_length`, removes duplicates keeping first-occurrence order,
/// trims each, and joins them with newlines.
pub fn get_filtered_data_from_lines(
    lines: &Vec<String>,
    regex_pattern: &CompiledRegex,
    min_length: u8,
) -> (r: String)
    ensures
        r@ == filtered_text(regex_pattern.pattern_view(), lines.deep_view(), min_length as nat),
{
    let ghost pat = regex_pattern.pattern_view();
    let ghost lv = lines.deep_view();
    let ghost min = min_length as nat;
    let mut found: Vec<String> = Vec::new();
    let mut i: usize = 0;
    proof {
        reveal(Seq::filter);
        assert(lv.take(0) =~~= Seq::<Seq<char>>::empty());
        assert(Seq::<Seq<char>>::empty().map_values(|l: Seq<char>| regex_found(pat, l))
            =~~= Seq::<Seq<Seq<char>>>::empty());
        assert(found.deep_view() =~~= candidate_matches(pat, lv.take(0), min));
    }
    while i < lines.len()
        invariant
            0 <= i <= lines@.len(),
            lv == lines.deep_view(),
            pat == regex_pattern.pattern_view(),
            min == min_length as nat,
            found.deep_view() == candidate_matches(pat, lv.take(i as int), min),
        decreases lines@.len() - i,
    {
        let ms = regex_pattern.find_all(lines[i].as_str());
        let ghost base = all_matches(pat, lv.take(i as int));
        let ghost mv = ms.deep_view();
        proof {
            assert(lines[i as int]@ == lv[i as int]);
            assert(lv.take(i + 1) =~~= lv.take(i as int).push(lv[i as int]));
            lemma_all_matches_push(pat, lv.take(i as int), lv[i as int]);
            assert(base + mv.take(0) =~~= base);
        }
        let mut j: usize = 0;
        while j < ms.len()
            invariant
                0 <= j <= ms@.len(),
                mv == ms.deep_view(),
                min == min_length as nat,
                found.deep_view() == dedup_first(keep_long(base + mv.take(j as int), min)),
            decreases ms@.len() - j,
        {
            let ghost pref = base + mv.take(j as int);
            proof {
                assert(base + mv.take(j + 1) =~~= pref.push(mv[j as int]));
                lemma_keep_long_push(pref, mv[j as int], min);
                lemma_dedup_first_push(keep_long(pref, min), mv[j as int]);
                assert(ms[j as int]@ == mv[j as int]);
            }
            let keep = ms[j].as_str().unicode_len() >= min_length as usize;
            if keep && !contains_string(&found, &ms[j]) {
                let ghost dv_old = found.deep_view();
                let m = ms[j].clone();
                found.push(m);
                proof {
                    assert(found.deep_view() =~~= dv_old.push(mv[j as int]));
                }
            }
            j = j + 1;
        }
        proof {
            assert(base + mv.take(ms@.len() as int) =~~= all_matches(pat, lv.take(i + 1)));
        }
        i = i + 1;
    }
    proof {
        assert(lv.take(lines@.len() as int) =~= lv);
    }
    let mut entries: Vec<String> = Vec::new();
    let mut k: usize = 0;
    proof {
        assert(entries.deep_view() =~~= trim_all(found.deep_view().take(0)));
    }
    while k < found.len()
        invariant
            0 <= k <= found@.len(),
            entries.deep_view() == trim_all(found.deep_view().take(k as int)),
            found.deep_view() == candidate_matches(pat, lv, min),
        decreases found@.len() - k,
    {
        let ghost ev_old = entries.deep_view();
        let t = trim(found[k].as_str()).to_owned();
        entries.push(t);
        proof {
            assert(entries.deep_view() =~~= ev_old.push(trim_spec(found.deep_view()[k as int])));
            assert(entries.deep_view() =~~= trim_all(found.deep_view().take(k + 1)));
        }
        k = k + 1;
    }
    proof {
        assert(found.deep_view().take(found@.len() as int) =~= found.deep_view());
        assert(entries.deep_view() =~~= filtered_entries(pat, lv, min));
    }
    join_with_newlines(&entries)
}

/// The index of the first occurrence of `x` in `ms`.
pub open spec fn first_index(ms: Seq<Seq<char>>, x: Seq<char>) -> int
    decreases ms.len(),
{
    if ms.len() == 0 {
        0
    } else if ms[0] == x {
        0
    } else {
        1 + first_index(ms.drop_first(), x)
    }
}

proof fn lemma_contains_push(s: Seq<Seq<char>>, y: Seq<char>, x: Seq<char>)
    ensures
        s.push(y).contains(x) <==> s.contains(x) || x == y,
{
    if s.contains(x) {
        let w = choose|w: int| 0 <= w < s.len() && s[w] == x;
        assert(s.push(y)[w] == x);
    }
    if x == y {
        assert(s.push(y)[s.len() as int] == x);
    }
    if s.push(y).contains(x) {
        let w = choose|w: int| 0 <= w < s.push(y).len() && s.push(y)[w] == x;
        if w < s.len() {
            assert(s[w] == x);
        }
    }
}

proof fn lemma_first_index_props(ms: Seq<Seq<char>>, x: Seq<char>)
    requires
        ms.contains(x),
    ensures
        0 <= first_index(ms, x) < ms.len(),
        ms[first_index(ms, x)] == x,
    decreases ms.len(),
{
    if ms.len() > 0 && ms[0] != x {
        let w = choose|w: int| 0 <= w < ms.len() && ms[w] == x;
        assert(ms.drop_first()[w - 1] == x);
        lemma_first_index_props(ms.drop_first(), x);
    }
}

proof fn lemma_first_index_push(ms: Seq<Seq<char>>, y: Seq<char>, x: Seq<char>)
    ensures
        ms.contains(x) ==> first_index(ms.push(y), x) == first_index(ms, x),
        !ms.contains(x) && x == y ==> first_index(ms.push(y), x) == ms.len(),
    decreases ms.len(),
{
    if ms.len() == 0 {
        assert(ms.push(y)[0] == y);
    } else {
        assert(ms.push(y)[0] == ms[0]);
        if ms[0] == x {
            assert(ms.contains(x));
        } else {
            assert(ms.push(y).drop_first() =~~= ms.drop_first().push(y));
            lemma_first_index_push(ms.drop_first(), y, x);
            if ms.contains(x) {
                let w = choose|w: int| 0 <= w < ms.len() && ms[w] == x;
                assert(ms.drop_first()[w - 1] == x);
            }
            if ms.drop_first().contains(x) {
                let w = choose|w: int| 0 <= w < ms.drop_first().len() && ms.drop_first()[w] == x;
                assert(ms[w + 1] == x);
            }
        }
    }
}

/// Law: deduplication removes every duplicate, keeps exactly the elements
/// that occur in the input, and leaves the survivors in the order of their
/// first occurrence.
pub proof fn lemma_dedup_first_sound(ms: Seq<Seq<char>>)
    ensures
        forall|a: int, b: int|
            0 <= a < b < dedup_first(ms).len() ==> dedup_first(ms)[a] != dedup_first(ms)[b],
        forall|x: Seq<char>| #[trigger] dedup_first(ms).contains(x) <==> ms.contains(x),
        forall|a: int, b: int|
            0 <= a < b < dedup_first(ms).len() ==> first_index(ms, dedup_first(ms)[a])
                < first_index(ms, dedup_first(ms)[b]),
    decreases ms.len(),
{
    if ms.len() == 0 {
        assert forall|x: Seq<char>| #[trigger] dedup_first(ms).contains(x) <==> ms.contains(
            x,
        ) by {}
    } else {
        let p = ms.drop_last();
        let y = ms.last();
        let dp = dedup_first(p);
        let d = dedup_first(ms);
        lemma_dedup_first_sound(p);
        assert(p.push(y) =~~= ms);
        assert forall|x: Seq<char>| #[trigger] d.contains(x) <==> ms.contains(x) by {
            lemma_contains_push(p, y, x);
            if d == dp.push(y) {
                lemma_contains_push(dp, y, x);
            }
        }
        assert forall|e: Seq<char>| dp.contains(e) implies #[trigger] first_index(ms, e)
            == first_index(p, e) by {
            lemma_first_index_push(p, y, e);
        }
        if dp.contains(y) {
            assert(d == dp);
            assert forall|a: int, b: int| 0 <= a < b < d.len() implies first_index(ms, d[a])
                < first_index(ms, d[b]) by {
                assert(dp.contains(d[a]));
                assert(dp.contains(d[b]));
            }
        } else {
            assert(d == dp.push(y));
            assert(!p.contains(y));
            lemma_first_index_push(p, y, y);
            assert(first_index(ms, y) == p.len());
            assert forall|a: int, b: int| 0 <= a < b < d.len() implies first_index(ms, d[a])
                < first_index(ms, d[b]) by {
                assert(dp.contains(d[a]));
                if b < d.len() - 1 {
                    assert(dp.contains(d[b]));
                } else {
                    assert(d[b] == y);
                    lemma_first_index_props(p, d[a]);
                }
            }
            assert forall|a: int, b: int| 0 <= a < b < d.len() implies d[a] != d[b] by {
                if b == d.len() - 1 {
                    assert(dp.contains(d[a]));
                }
            }
        }
    }
}

proof fn lemma_keep_long_subset(s: Seq<Seq<char>>, min: nat, x: Seq<char>)
    requires
        keep_long(s, min).contains(x),
    ensures
        s.contains(x),
        x.len() >= min,
    decreases s.len(),
{
    reveal(Seq::filter);
    broadcast use Seq::lemma_filter_pred;

    if s.len() > 0 {
        assert(s.drop_last().push(s.last()) =~~= s);
        lemma_contains_push(s.drop_last(), s.last(), x);
        if keep_long(s.drop_last(), min).contains(x) {
            lemma_keep_long_subset(s.drop_last(), min, x);
        } else {
            lemma_contains_push(keep_long(s.drop_last(), min), s.last(), x);
        }
    }
}

/// Law: when every surviving candidate is already free of surrounding
/// whitespace, the filter's output entries hold no duplicates; with
/// `lemma_dedup_first_sound` they also stand in first-occurrence order.
pub proof fn lemma_filtered_entries_unique(pattern: Seq<char>, lines: Seq<Seq<char>>, min: nat)
    requires
        forall|x: Seq<char>| #[trigger]
            candidate_matches(pattern, lines, min).contains(x) ==> trim_spec(x) == x,
    ensures
        forall|a: int, b: int|
            0 <= a < b < filtered_entries(pattern, lines, min).len() ==> filtered_entries(
                pattern,
                lines,
                min,
            )[a] != filtered_entries(pattern, lines, min)[b],
{
    let cand = candidate_matches(pattern, lines, min);
    let entries = filtered_entries(pattern, lines, min);
    lemma_dedup_first_sound(keep_long(all_matches(pattern, lines), min));
    assert forall|a: int, b: int| 0 <= a < b < entries.len() implies entries[a] != entries[b] by {
        assert(cand.contains(cand[a]));
        assert(cand.contains(cand[b]));
        assert(entries[a] == trim_spec(cand[a]));
        assert(entries[b] == trim_spec(cand[b]));
    }
}

/// Law: a match shorter than the minimum never survives the length filter,
/// every match at least as long survives it, and each surviving candidate
/// appears, trimmed, among the output entries.
pub proof fn lemma_min_length_filter(pattern: Seq<char>, lines: Seq<Seq<char>>, min: nat)
    ensures
        forall|x: Seq<char>| #[trigger]
            candidate_matches(pattern, lines, min).contains(x) ==> x.len() >= min && all_matches(
                pattern,
                lines,
            ).contains(x),
        forall|x: Seq<char>|
            all_matches(pattern, lines).contains(x) && x.len() >= min ==> #[trigger]
                candidate_matches(pattern, lines, min).contains(x),
        forall|x: Seq<char>| #[trigger]
            candidate_matches(pattern, lines, min).contains(x) ==> filtered_entries(
                pattern,
                lines,
                min,
            ).contains(trim_spec(x)),
{
    let all = all_matches(pattern, lines);
    let kept = keep_long(all, min);
    let cand = candidate_matches(pattern, lines, min);
    lemma_dedup_first_sound(kept);
    assert forall|x: Seq<char>| #[trigger] cand.contains(x) implies x.len() >= min
        && all.contains(x) by {
        lemma_keep_long_subset(all, min, x);
    }
    assert forall|x: Seq<char>| all.contains(x) && x.len() >= min implies #[trigger] cand.contains(
        x,
    ) by {
        broadcast use Seq::lemma_filter_contains;

        let w = choose|w: int| 0 <= w < all.len() && all[w] == x;
        assert(kept.contains(all[w]));
    }
    assert forall|x: Seq<char>| #[trigger] cand.contains(x) implies filtered_entries(
        pattern,
        lines,
        min,
    ).contains(trim_spec(x)) by {
        let w = choose|w: int| 0 <= w < cand.len() && cand[w] == x;
        assert(filtered_entries(pattern, lines, min)[w] == trim_spec(x));
    }
}

/// The non-empty elements of `ls`.
pub open spec fn nonempty(ls: Seq<Seq<char>>) -> Seq<Seq<char>> {
    ls.filter(|l: Seq<char>| l.len() > 0)
}

/// The buffer snapshot taken from a raw capture: its distinct non-empty
/// lines, in first-occurrence order.
pub fn snapshot_lines(text: &str) -> (r: Vec<String>)
    ensures
        r.deep_view() == dedup_first(nonempty(split_nl(text@))),
{
    let lines = split_on_newline(text);
    let ghost ls = lines.deep_view();
    let mut r: Vec<String> = Vec::new();
    let mut i: usize = 0;
    proof {
        reveal(Seq::filter);
        assert(ls.take(0) =~~= Seq::<Seq<char>>::empty());
        assert(r.deep_view() =~~= dedup_first(nonempty(ls.take(0))));
    }
    while i < lines.len()
        invariant
            0 <= i <= lines@.len(),
            ls == lines.deep_view(),
            r.deep_view() == dedup_first(nonempty(ls.take(i as int))),
        decreases lines@.len() - i,
    {
        let ghost pref = ls.take(i as int);
        proof {
            assert(ls.take(i + 1) =~~= pref.push(ls[i as int]));
            lemma_nonempty_push(pref, ls[i as int]);
            lemma_dedup_first_push(nonempty(pref), ls[i as int]);
            assert(lines[i as int]@ == ls[i as int]);
        }
        if lines[i].as_str().unicode_len() > 0 && !contains_string(&r, &lines[i]) {
            let ghost dv_old = r.deep_view();
            let l = lines[i].clone();
            r.push(l);
            proof {
                assert(r.deep_view() =~~= dv_old.push(ls[i as int]));
            }
        }
        i = i + 1;
    }
    proof {
        assert(ls.take(lines@.len() as int) =~= ls);
    }
    r
}

} // verus!
