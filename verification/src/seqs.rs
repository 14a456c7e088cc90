//! Lists used as sets: lists without repetition, in order of first
//! occurrence or in ascending order of their texts.

use vstd::prelude::*;
use crate::text::{
    chars_of, compare_chars, lemma_lex_lt_total, lemma_lex_lt_transitive, lex_lt, text_lists,
    texts, Order,
};

verus! {

/// The elements of `s` without repetition, each at the place of its first
/// occurrence.
pub open spec fn spec_distinct<A>(s: Seq<A>) -> Seq<A>
    decreases s.len(),
{
    if s.len() == 0 {
        Seq::empty()
    } else if spec_distinct(s.drop_last()).contains(s.last()) {
        spec_distinct(s.drop_last())
    } else {
        spec_distinct(s.drop_last()).push(s.last())
    }
}

/// The places of `s` whose element meets `pred`, in ascending order.
pub open spec fn spec_select<A>(s: Seq<A>, pred: spec_fn(A) -> bool) -> Seq<int>
    decreases s.len(),
{
    if s.len() == 0 {
        Seq::empty()
    } else if pred(s.last()) {
        spec_select(s.drop_last(), pred).push(s.len() - 1)
    } else {
        spec_select(s.drop_last(), pred)
    }
}

/// Number of elements of `s` that meet `pred`.
pub open spec fn spec_count<A>(s: Seq<A>, pred: spec_fn(A) -> bool) -> nat {
    spec_select(s, pred).len()
}

/// The sequences of `parts` one after the other.
pub open spec fn spec_concat<A>(parts: Seq<Seq<A>>) -> Seq<A>
    decreases parts.len(),
{
    if parts.len() == 0 {
        Seq::empty()
    } else {
        spec_concat(parts.drop_last()) + parts.last()
    }
}

/// Whether no element occurs twice in `s`.
pub open spec fn has_no_repetition<A>(s: Seq<A>) -> bool {
    forall|i: int, j: int| 0 <= i < j < s.len() ==> s[i] != s[j]
}

/// Whether the texts of `s` ascend strictly.
pub open spec fn is_ascending(s: Seq<Seq<char>>) -> bool {
    forall|i: int, j: int| 0 <= i < j < s.len() ==> lex_lt(#[trigger] s[i], #[trigger] s[j])
}

/// `spec_distinct` keeps every element and repeats none.
pub proof fn lemma_distinct<A>(s: Seq<A>)
    ensures
        has_no_repetition(spec_distinct(s)),
        forall|x: A| #[trigger] spec_distinct(s).contains(x) <==> s.contains(x),
        spec_distinct(s).len() <= s.len(),
    decreases s.len(),
{
    if s.len() > 0 {
        let p = s.drop_last();
        let d = spec_distinct(p);
        lemma_distinct(p);
        assert forall|x: A| #[trigger] spec_distinct(s).contains(x) <==> s.contains(x) by {
            if s.contains(x) {
                let i = choose|i: int| 0 <= i < s.len() && s[i] == x;
                if i < p.len() {
                    assert(p[i] == x);
                    assert(p.contains(x));
                    assert(d.contains(x));
                    if !d.contains(s.last()) {
                        let j = choose|j: int| 0 <= j < d.len() && d[j] == x;
                        assert(d.push(s.last())[j] == x);
                    }
                } else {
                    assert(x == s.last());
                    if !d.contains(s.last()) {
                        assert(d.push(s.last())[d.len() as int] == x);
                    }
                }
            }
            if spec_distinct(s).contains(x) {
                let j = choose|j: int| 0 <= j < spec_distinct(s).len() && spec_distinct(s)[j] == x;
                if j < d.len() {
                    assert(d[j] == x);
                    assert(d.contains(x));
                    assert(p.contains(x));
                    let i = choose|i: int| 0 <= i < p.len() && p[i] == x;
                    assert(s[i] == x);
                } else {
                    assert(x == s.last());
                    assert(s[s.len() - 1] == x);
                }
            }
        }
    }
}

/// The selected places are places of `s` whose elements meet `pred`, they
/// ascend, and none is left out.
pub proof fn lemma_select<A>(s: Seq<A>, pred: spec_fn(A) -> bool)
    ensures
        spec_select(s, pred).len() <= s.len(),
        forall|k: int|
            0 <= k < spec_select(s, pred).len() ==> 0 <= #[trigger] spec_select(s, pred)[k]
                < s.len() && pred(s[spec_select(s, pred)[k]]),
        forall|k: int, l: int|
            0 <= k < l < spec_select(s, pred).len() ==> #[trigger] spec_select(s, pred)[k]
                < #[trigger] spec_select(s, pred)[l],
        forall|i: int|
            0 <= i < s.len() && pred(#[trigger] s[i]) ==> spec_select(s, pred).contains(i),
    decreases s.len(),
{
    if s.len() > 0 {
        let p = s.drop_last();
        let before = spec_select(p, pred);
        let now = spec_select(s, pred);
        lemma_select(p, pred);
        assert forall|i: int| 0 <= i < s.len() && pred(#[trigger] s[i]) implies now.contains(
            i,
        ) by {
            if i < p.len() {
                assert(p[i] == s[i]);
                assert(before.contains(i));
                let k = choose|k: int| 0 <= k < before.len() && before[k] == i;
                assert(now[k] == i);
            } else {
                assert(now[now.len() - 1] == i);
            }
        }
        assert forall|k: int| 0 <= k < now.len() implies 0 <= #[trigger] now[k] < s.len() && pred(
            s[now[k]],
        ) by {
            if k < before.len() {
                assert(now[k] == before[k]);
                assert(p[before[k]] == s[before[k]]);
            }
        }
        assert forall|k: int, l: int| 0 <= k < l < now.len() implies #[trigger] now[k]
            < #[trigger] now[l] by {
            if l < before.len() {
                assert(now[k] == before[k] && now[l] == before[l]);
            } else {
                assert(now[k] == before[k]);
            }
        }
    }
}

/// Two sequences whose elements meet their predicates at the same places
/// have the same selection.
pub proof fn lemma_select_alike<A, B>(
    a: Seq<A>,
    pa: spec_fn(A) -> bool,
    b: Seq<B>,
    pb: spec_fn(B) -> bool,
)
    requires
        a.len() == b.len(),
        forall|i: int| 0 <= i < a.len() ==> pa(#[trigger] a[i]) == pb(b[i]),
    ensures
        spec_select(a, pa) == spec_select(b, pb),
    decreases a.len(),
{
    if a.len() > 0 {
        assert(pa(a[a.len() - 1]) == pb(b[a.len() - 1]));
        assert forall|i: int| 0 <= i < a.len() - 1 implies pa(#[trigger] a.drop_last()[i]) == pb(
            b.drop_last()[i],
        ) by {
            assert(pa(a[i]) == pb(b[i]));
        }
        lemma_select_alike(a.drop_last(), pa, b.drop_last(), pb);
    }
}

/// Whether `v` holds a string of text `s`.
pub fn has_text(v: &Vec<String>, s: &str) -> (found: bool)
    ensures
        found == texts(v@).contains(s@),
{
    let wanted = chars_of(s);
    let mut i: usize = 0;
    while i < v.len()
        invariant
            i <= v.len(),
            wanted@ == s@,
            forall|k: int| 0 <= k < i ==> texts(v@)[k] != s@,
        decreases v.len() - i,
    {
        let own = chars_of(v[i].as_str());
        match compare_chars(&own, &wanted) {
            Order::Equal => {
                assert(texts(v@)[i as int] == s@);
                return true;
            },
            _ => {},
        }
        i += 1;
    }
    false
}

/// Whether two lists of strings hold the same texts.
pub fn same_texts(a: &Vec<String>, b: &Vec<String>) -> (same: bool)
    ensures
        same == (texts(a@) == texts(b@)),
{
    if a.len() != b.len() {
        assert(texts(a@).len() != texts(b@).len());
        return false;
    }
    let mut i: usize = 0;
    while i < a.len()
        invariant
            i <= a.len(),
            a.len() == b.len(),
            forall|k: int| 0 <= k < i ==> texts(a@)[k] == texts(b@)[k],
        decreases a.len() - i,
    {
        if a[i] != b[i] {
            assert(texts(a@)[i as int] != texts(b@)[i as int]);
            return false;
        }
        i += 1;
    }
    assert(texts(a@) =~= texts(b@));
    true
}

/// Whether the texts of `prefix` are the first texts of `path`.
pub fn starts_with_texts(path: &Vec<String>, prefix: &Vec<String>) -> (b: bool)
    ensures
        b == texts(prefix@).is_prefix_of(texts(path@)),
{
    if prefix.len() > path.len() {
        return false;
    }
    let mut i: usize = 0;
    while i < prefix.len()
        invariant
            i <= prefix.len(),
            prefix.len() <= path.len(),
            forall|k: int| 0 <= k < i ==> texts(prefix@)[k] == texts(path@)[k],
        decreases prefix.len() - i,
    {
        if prefix[i] != path[i] {
            assert(texts(prefix@)[i as int] != texts(path@)[i as int]);
            assert(texts(path@).subrange(0, prefix.len() as int)[i as int] == texts(path@)[i as int]);
            return false;
        }
        i += 1;
    }
    assert(texts(prefix@) =~= texts(path@).subrange(0, prefix.len() as int));
    true
}

/// Whether `v` holds a list of the texts of `path`.
pub fn has_path(v: &Vec<Vec<String>>, path: &Vec<String>) -> (found: bool)
    ensures
        found == text_lists(v@).contains(texts(path@)),
{
    let mut i: usize = 0;
    while i < v.len()
        invariant
            i <= v.len(),
            forall|k: int| 0 <= k < i ==> text_lists(v@)[k] != texts(path@),
        decreases v.len() - i,
    {
        if same_texts(&v[i], path) {
            assert(text_lists(v@)[i as int] == texts(path@));
            return true;
        }
        i += 1;
    }
    false
}

/// Puts `s` into the ascending list `v`, unless `v` holds its text already.
pub fn insert_ascending(v: &mut Vec<String>, s: String)
    requires
        is_ascending(texts(old(v)@)),
    ensures
        is_ascending(texts(final(v)@)),
        forall|x: Seq<char>|
            #[trigger] texts(final(v)@).contains(x) <==> texts(old(v)@).contains(x) || x == s@,
        final(v).len() <= old(v).len() + 1,
{
    let wanted = chars_of(s.as_str());
    let ghost before = texts(v@);
    let mut i: usize = 0;
    let mut placed = false;
    while !placed && i < v.len()
        invariant
            i <= v.len(),
            v@ == old(v)@,
            before == texts(v@),
            is_ascending(before),
            wanted@ == s@,
            forall|k: int| 0 <= k < i ==> lex_lt(#[trigger] before[k], s@),
            placed ==> i < v.len() && lex_lt(s@, before[i as int]),
        decreases v.len() - i + (if placed { 0int } else { 1int }),
    {
        let own = chars_of(v[i].as_str());
        proof {
            lemma_lex_lt_total(own@, wanted@);
            assert(before[i as int] == own@);
        }
        match compare_chars(&own, &wanted) {
            Order::Less => {
                i += 1;
            },
            Order::Equal => {
                assert forall|x: Seq<char>| #[trigger]
                    before.contains(x) <==> before.contains(x) || x == s@ by {
                    if x == s@ {
                        assert(before[i as int] == x);
                    }
                }
                return ;
            },
            Order::Greater => {
                placed = true;
            },
        }
    }
    proof {
        let after = before.insert(i as int, s@);
        assert forall|k: int, l: int| 0 <= k < l < after.len() implies lex_lt(
            #[trigger] after[k],
            #[trigger] after[l],
        ) by {
            if l < i {
                assert(after[k] == before[k] && after[l] == before[l]);
            } else if l == i {
                assert(after[k] == before[k]);
            } else if k < i {
                // before[k] < s < before[i] <= before[l - 1]
                assert(after[k] == before[k] && after[l] == before[l - 1]);
                if l - 1 > k {
                } else {
                }
            } else if k == i {
                assert(after[l] == before[l - 1]);
                if l - 1 > i {
                    lemma_lex_lt_transitive(s@, before[i as int], before[l - 1]);
                }
            } else {
                assert(after[k] == before[k - 1] && after[l] == before[l - 1]);
            }
        }
        assert forall|x: Seq<char>| #[trigger]
            after.contains(x) <==> before.contains(x) || x == s@ by {
            if after.contains(x) {
                let k = choose|k: int| 0 <= k < after.len() && after[k] == x;
                if k < i {
                    assert(before[k] == x);
                } else if k > i {
                    assert(before[k - 1] == x);
                }
            }
            if before.contains(x) {
                let k = choose|k: int| 0 <= k < before.len() && before[k] == x;
                if k < i {
                    assert(after[k] == x);
                } else {
                    assert(after[k + 1] == x);
                }
            }
            if x == s@ {
                assert(after[i as int] == x);
            }
        }
        assert(texts(v@.insert(i as int, s)) =~= after);
    }
    v.insert(i, s);
}

/// Appends `s` to `v`, unless `v` holds its text already.
pub fn push_new_text(v: &mut Vec<String>, s: String)
    ensures
        texts(final(v)@) == (if texts(old(v)@).contains(s@) {
            texts(old(v)@)
        } else {
            texts(old(v)@).push(s@)
        }),
{
    if !has_text(v, s.as_str()) {
        proof {
            assert(texts(v@.push(s)) =~= texts(v@).push(s@));
        }
        v.push(s);
    }
}

/// Appends `path` to `v`, unless `v` holds a list of its texts already.
pub fn push_new_path(v: &mut Vec<Vec<String>>, path: Vec<String>)
    ensures
        text_lists(final(v)@) == (if text_lists(old(v)@).contains(texts(path@)) {
            text_lists(old(v)@)
        } else {
            text_lists(old(v)@).push(texts(path@))
        }),
{
    if !has_path(v, &path) {
        proof {
            assert(text_lists(v@.push(path)) =~= text_lists(v@).push(texts(path@)));
        }
        v.push(path);
    }
}

/// The strings of `lists`, one list after the other.
pub fn flatten_texts(lists: &Vec<Vec<String>>) -> (flat: Vec<String>)
    ensures
        texts(flat@) == spec_concat(text_lists(lists@)),
{
    let ghost all = text_lists(lists@);
    let mut flat: Vec<String> = Vec::new();
    let mut k: usize = 0;
    assert(texts(flat@) =~= spec_concat(all.take(0)));
    while k < lists.len()
        invariant
            k <= lists.len(),
            all == text_lists(lists@),
            texts(flat@) == spec_concat(all.take(k as int)),
        decreases lists.len() - k,
    {
        let list = &lists[k];
        let ghost start = texts(flat@);
        let mut j: usize = 0;
        while j < list.len()
            invariant
                j <= list.len(),
                texts(flat@) == start + texts(list@).take(j as int),
            decreases list.len() - j,
        {
            proof {
                assert(texts(flat@.push(list@[j as int])) =~= texts(flat@).push(list@[j as int]@));
                assert(texts(list@).take(j + 1) =~= texts(list@).take(j as int).push(
                    list@[j as int]@,
                ));
                assert(texts(flat@).push(list@[j as int]@) =~= start + texts(list@).take(j + 1));
            }
            flat.push(list[j].clone());
            j += 1;
        }
        proof {
            assert(texts(list@).take(list.len() as int) =~= texts(list@));
            let next = all.take(k + 1);
            assert(next.drop_last() =~= all.take(k as int));
            assert(next.last() == texts(list@));
        }
        k += 1;
    }
    assert(all.take(lists.len() as int) =~= all);
    flat
}

/// The strings of `v` without repetition, in order of first occurrence.
pub fn distinct_texts(v: &Vec<String>) -> (d: Vec<String>)
    ensures
        texts(d@) == spec_distinct(texts(v@)),
{
    let ghost all = texts(v@);
    let mut d: Vec<String> = Vec::new();
    let mut k: usize = 0;
    assert(texts(d@) =~= spec_distinct(all.take(0)));
    while k < v.len()
        invariant
            k <= v.len(),
            all == texts(v@),
            texts(d@) == spec_distinct(all.take(k as int)),
        decreases v.len() - k,
    {
        proof {
            let next = all.take(k + 1);
            assert(next.drop_last() =~= all.take(k as int));
            assert(next.last() == v@[k as int]@);
        }
        push_new_text(&mut d, v[k].clone());
        k += 1;
    }
    assert(all.take(v.len() as int) =~= all);
    d
}

/// The lists of `v` without repetition, in order of first occurrence.
pub fn distinct_paths(v: Vec<Vec<String>>) -> (d: Vec<Vec<String>>)
    ensures
        text_lists(d@) == spec_distinct(text_lists(v@)),
{
    let ghost all = text_lists(v@);
    let mut rest = v;
    let mut d: Vec<Vec<String>> = Vec::new();
    let ghost mut k: int = 0;
    assert(text_lists(d@) =~= spec_distinct(all.take(0)));
    while rest.len() > 0
        invariant
            0 <= k <= all.len(),
            rest.len() == all.len() - k,
            forall|i: int| 0 <= i < rest.len() ==> texts((#[trigger] rest@[i])@) == all[k + i],
            text_lists(d@) == spec_distinct(all.take(k)),
        decreases rest.len(),
    {
        let path = rest.remove(0);
        proof {
            let next = all.take(k + 1);
            assert(next.drop_last() =~= all.take(k));
            assert(next.last() == texts(path@));
        }
        push_new_path(&mut d, path);
        proof {
            k = k + 1;
        }
    }
    assert(all.take(all.len() as int) =~= all);
    d
}

/// The first `n` strings of `path`.
pub fn prefix_of(path: &Vec<String>, n: usize) -> (prefix: Vec<String>)
    requires
        n <= path.len(),
    ensures
        texts(prefix@) == texts(path@).take(n as int),
{
    let mut prefix: Vec<String> = Vec::new();
    let mut i: usize = 0;
    while i < n
        invariant
            i <= n <= path.len(),
            texts(prefix@) == texts(path@).take(i as int),
        decreases n - i,
    {
        proof {
            assert(texts(prefix@.push(path@[i as int])) =~= texts(prefix@).push(path@[i as int]@));
            assert(texts(path@).take(i + 1) =~= texts(path@).take(i as int).push(path@[i as int]@));
        }
        prefix.push(path[i].clone());
        i += 1;
    }
    prefix
}

} // verus!
