//! What the selection guarantees for every surface, proved over the spec
//! functions that the selection's contracts use.
use vstd::prelude::*;
use crate::selection::{
    accepted_of, admits, at_least, candidates_of, descending, forced_lights, head_of, listed,
    overflow_of, ranked, rejected_of, sift, slot, verdicts_of, Candidate, LightTag,
    Rank, Sieve, Verdict, LUT_WIDTH,
};

verus! {

broadcast use {
    vstd::seq_lib::lemma_seq_contains_after_push,
    vstd::seq_lib::lemma_seq_concat_contains_all_elements,
};

proof fn lemma_sift_add(a: Seq<Candidate>, b: Seq<Candidate>, k: Sieve)
    ensures
        sift(a + b, k) == sift(a, k) + sift(b, k),
    decreases b.len(),
{
    if b.len() == 0 {
        assert(a + b =~= a);
        assert(sift(a, k) + sift(b, k) =~= sift(a, k));
    } else {
        lemma_sift_add(a, b.drop_last(), k);
        assert((a + b).drop_last() =~= a + b.drop_last());
        assert((a + b).last() == b.last());
        if admits(k, b.last()) {
            assert(sift(a, k) + sift(b.drop_last(), k).push(b.last()) =~= (sift(a, k) + sift(
                b.drop_last(),
                k,
            )).push(b.last()));
        }
    }
}

proof fn lemma_sift_contains(s: Seq<Candidate>, k: Sieve)
    ensures
        forall|y: Candidate| #[trigger]
            sift(s, k).contains(y) <==> (s.contains(y) && admits(k, y)),
    decreases s.len(),
{
    if s.len() > 0 {
        let d = s.drop_last();
        let l = s.last();
        lemma_sift_contains(d, k);
        assert(s =~= d.push(l));
        assert forall|y: Candidate| #[trigger]
            sift(s, k).contains(y) <==> (s.contains(y) && admits(k, y)) by {
            assert(d.push(l).contains(y) <==> (l == y || d.contains(y)));
            assert(sift(d, k).push(l).contains(y) <==> (l == y || sift(d, k).contains(y)));
        }
    }
}

proof fn lemma_sift_all(s: Seq<Candidate>, k: Sieve)
    requires
        forall|i: int| 0 <= i < s.len() ==> admits(k, #[trigger] s[i]),
    ensures
        sift(s, k) == s,
    decreases s.len(),
{
    if s.len() > 0 {
        lemma_sift_all(s.drop_last(), k);
        assert(admits(k, s[s.len() - 1]));
        assert(s.drop_last().push(s.last()) =~= s);
    }
}

proof fn lemma_sift_index(s: Seq<Candidate>, k: Sieve, i: int)
    requires
        0 <= i < sift(s, k).len(),
    ensures
        admits(k, sift(s, k)[i]),
{
    lemma_sift_contains(s, k);
    assert(sift(s, k).contains(sift(s, k)[i]));
}

proof fn lemma_named_split_len(s: Seq<Candidate>)
    ensures
        sift(s, Sieve::Named).len() + sift(s, Sieve::Unnamed).len() == s.len(),
    decreases s.len(),
{
    if s.len() > 0 {
        lemma_named_split_len(s.drop_last());
    }
}

proof fn lemma_insert_contains(r: Seq<Candidate>, p: int, c: Candidate)
    requires
        0 <= p <= r.len(),
    ensures
        forall|y: Candidate| #[trigger]
            r.insert(p, c).contains(y) <==> (r.contains(y) || y == c),
{
    let q = r.insert(p, c);
    assert forall|y: Candidate| #[trigger] q.contains(y) <==> (r.contains(y) || y == c) by {
        if q.contains(y) {
            let t = choose|t: int| 0 <= t < q.len() && q[t] == y;
            if t < p {
                assert(r[t] == y);
            } else if t > p {
                assert(r[t - 1] == y);
            }
        }
        if r.contains(y) {
            let t = choose|t: int| 0 <= t < r.len() && r[t] == y;
            if t < p {
                assert(q[t] == y);
            } else {
                assert(q[t + 1] == y);
            }
        }
        if y == c {
            assert(q[p] == y);
        }
    }
}

proof fn lemma_ranked(s: Seq<Candidate>)
    ensures
        ranked(s).len() == s.len(),
        descending(ranked(s)),
        forall|y: Candidate| #[trigger] ranked(s).contains(y) <==> s.contains(y),
        sift(ranked(s), Sieve::Forced).len() == sift(s, Sieve::Forced).len(),
    decreases s.len(),
{
    if s.len() > 0 {
        let r = ranked(s.drop_last());
        let c = s.last();
        lemma_ranked(s.drop_last());
        lemma_slot(r, c);
        let p = slot(r, c) as int;
        let q = r.insert(p, c);
        assert(q == ranked(s));
        assert forall|i: int, j: int| 0 <= i < j < q.len() implies at_least(
            q[i].rank,
            q[j].rank,
        ) by {
            if j < p {
                assert(at_least(r[i].rank, r[j].rank));
            } else if j == p {
                assert(at_least(r[i].rank, c.rank));
            } else if i < p {
                assert(at_least(r[i].rank, r[j - 1].rank));
            } else if i == p {
                assert(!at_least(r[p].rank, c.rank));
                if p < j - 1 {
                    assert(at_least(r[p].rank, r[j - 1].rank));
                }
            } else {
                assert(at_least(r[i - 1].rank, r[j - 1].rank));
            }
        }
        lemma_insert_contains(r, p, c);
        assert(s =~= s.drop_last().push(c));
        assert(q =~= r.take(p) + seq![c] + r.skip(p));
        assert(r =~= r.take(p) + r.skip(p));
        lemma_sift_add(r.take(p) + seq![c], r.skip(p), Sieve::Forced);
        lemma_sift_add(r.take(p), seq![c], Sieve::Forced);
        lemma_sift_add(r.take(p), r.skip(p), Sieve::Forced);
        assert(seq![c].drop_last() =~= Seq::<Candidate>::empty());
        assert(sift(Seq::<Candidate>::empty(), Sieve::Forced) =~= Seq::<Candidate>::empty());
        assert(sift(seq![c], Sieve::Forced).len() == if admits(Sieve::Forced, c) {
            1int
        } else {
            0int
        });
        assert(sift(q, Sieve::Forced).len() == sift(r, Sieve::Forced).len() + sift(
            seq![c],
            Sieve::Forced,
        ).len());
    }
}

pub(crate) proof fn lemma_slot(r: Seq<Candidate>, c: Candidate)
    ensures
        slot(r, c) <= r.len(),
        forall|k: int| 0 <= k < slot(r, c) ==> at_least(#[trigger] r[k].rank, c.rank),
        slot(r, c) < r.len() ==> !at_least(r[slot(r, c) as int].rank, c.rank),
    decreases r.len(),
{
    if r.len() > 0 && at_least(r[0].rank, c.rank) {
        lemma_slot(r.drop_first(), c);
        assert forall|k: int| 0 <= k < slot(r, c) implies at_least(#[trigger] r[k].rank, c.rank) by {
            if k > 0 {
                assert(r[k] == r.drop_first()[k - 1]);
            }
        }
    }
}

proof fn lemma_head(p: Seq<Candidate>)
    ensures
        head_of(p).len() <= LUT_WIDTH,
        forall|k: int| 0 <= k < head_of(p).len() ==> #[trigger] head_of(p)[k] == p[k],
        forall|y: Candidate| #[trigger]
            p.contains(y) <==> (head_of(p).contains(y) || overflow_of(p).contains(y)),
{
    if p.len() > LUT_WIDTH {
        assert(p =~= p.take(LUT_WIDTH as int) + p.skip(LUT_WIDTH as int));
    } else {
        assert(p + overflow_of(p) =~= p);
    }
}

proof fn lemma_candidates(tags: Seq<LightTag>, v: Seq<Verdict>, keys: Seq<Option<u32>>, n: nat)
    requires
        n <= v.len(),
        n <= tags.len(),
        n <= keys.len(),
        n <= usize::MAX + 1,
    ensures
        forall|y: Candidate| #[trigger]
            candidates_of(tags, v, keys, n).contains(y) ==> y.light < n && v[y.light as int]
                != Verdict::Excluded,
        sift(candidates_of(tags, v, keys, n), Sieve::Forced).len() == forced_lights(v, n),
    decreases n,
{
    if n > 0 {
        let prev = candidates_of(tags, v, keys, (n - 1) as nat);
        lemma_candidates(tags, v, keys, (n - 1) as nat);
        let c = candidates_of(tags, v, keys, n);
        if c != prev {
            assert(c.drop_last() =~= prev);
        }
    }
}

proof fn lemma_forced_candidate(
    tags: Seq<LightTag>,
    v: Seq<Verdict>,
    keys: Seq<Option<u32>>,
    n: nat,
    i: int,
)
    requires
        n <= v.len(),
        n <= tags.len(),
        n <= keys.len(),
        0 <= i < n,
        v[i] == Verdict::Forced,
    ensures
        candidates_of(tags, v, keys, n).contains(
            Candidate { light: i as usize, named: tags[i].named, rank: Rank::Forced },
        ),
    decreases n,
{
    let x = Candidate { light: i as usize, named: tags[i].named, rank: Rank::Forced };
    let prev = candidates_of(tags, v, keys, (n - 1) as nat);
    if i < n - 1 {
        lemma_forced_candidate(tags, v, keys, (n - 1) as nat, i);
        assert(prev.contains(x));
    } else {
        assert(candidates_of(tags, v, keys, n) == prev.push(x));
    }
}

/// The cap: a surface accepts at most `LUT_WIDTH` lights, and every candidate
/// ends up accepted or rejected, so a light cut by the cap is among the
/// rejected ones.
pub proof fn law_cluster_cap(c: Seq<Candidate>, min_key: u32)
    ensures
        accepted_of(c, min_key).len() <= LUT_WIDTH,
        forall|y: Candidate|
            c.contains(y) ==> #[trigger] accepted_of(c, min_key).contains(y) || rejected_of(
                c,
                min_key,
            ).contains(y),
{
    let r = ranked(c);
    let p = sift(r, Sieve::Passing(min_key));
    let h = head_of(p);
    lemma_ranked(c);
    lemma_sift_contains(r, Sieve::Passing(min_key));
    lemma_sift_contains(r, Sieve::Failing(min_key));
    lemma_head(p);
    lemma_named_split_len(h);
    lemma_sift_contains(h, Sieve::Named);
    lemma_sift_contains(h, Sieve::Unnamed);
    assert forall|y: Candidate|
        c.contains(y) implies #[trigger] accepted_of(c, min_key).contains(y) || rejected_of(
        c,
        min_key,
    ).contains(y) by {
        assert(r.contains(y));
        if admits(Sieve::Passing(min_key), y) {
            assert(p.contains(y));
        } else {
            assert(sift(r, Sieve::Failing(min_key)).contains(y));
        }
    }
}

/// Named lights come first: in the accepted list no named light follows an
/// unnamed one, so among lights of equal score the named ones lead.
pub proof fn law_named_lights_lead(c: Seq<Candidate>, min_key: u32)
    ensures
        forall|i: int, j: int|
            0 <= i < j < accepted_of(c, min_key).len() && (#[trigger] accepted_of(c, min_key)[j]).named
                ==> (#[trigger] accepted_of(c, min_key)[i]).named,
{
    let h = head_of(sift(ranked(c), Sieve::Passing(min_key)));
    let a = sift(h, Sieve::Named);
    let b = sift(h, Sieve::Unnamed);
    assert forall|i: int, j: int|
        0 <= i < j < accepted_of(c, min_key).len() && (#[trigger] accepted_of(
            c,
            min_key,
        )[j]).named implies (#[trigger] accepted_of(c, min_key)[i]).named by {
        if j < a.len() {
            lemma_sift_index(h, Sieve::Named, i);
        } else {
            lemma_sift_index(h, Sieve::Unnamed, j - a.len());
        }
    }
}

/// Forcing wins: a named light listed for inclusion and not for exclusion is
/// accepted whatever its score, as long as no more lights are forced than the
/// texture has columns.
pub proof fn law_forced_light_accepted(
    tags: Seq<LightTag>,
    force: Seq<String>,
    exclude: Seq<String>,
    keys: Seq<Option<u32>>,
    min_key: u32,
    i: int,
)
    requires
        keys.len() == tags.len(),
        tags.len() <= usize::MAX,
        0 <= i < tags.len(),
        tags[i].named,
        listed(tags[i].id@, force),
        !listed(tags[i].id@, exclude),
        forced_lights(verdicts_of(tags, force, exclude), tags.len()) <= LUT_WIDTH,
    ensures
        exists|k: int|
            0 <= k < accepted_of(
                candidates_of(tags, verdicts_of(tags, force, exclude), keys, tags.len()),
                min_key,
            ).len() && (#[trigger] accepted_of(
                candidates_of(tags, verdicts_of(tags, force, exclude), keys, tags.len()),
                min_key,
            )[k]).light == i as usize,
{
    let v = verdicts_of(tags, force, exclude);
    let c = candidates_of(tags, v, keys, tags.len());
    let x = Candidate { light: i as usize, named: tags[i].named, rank: Rank::Forced };
    lemma_candidates(tags, v, keys, tags.len());
    assert(v[i] == Verdict::Forced);
    lemma_forced_candidate(tags, v, keys, tags.len(), i);
    assert(c.contains(x));
    let r = ranked(c);
    lemma_ranked(c);
    assert(r.contains(x));
    let t = choose|t: int| 0 <= t < r.len() && r[t] == x;
    assert forall|k: int| 0 <= k < t + 1 implies (#[trigger] r.take(t + 1)[k]).rank
        == Rank::Forced by {
        if k < t {
            assert(at_least(r[k].rank, r[t].rank));
        }
    }
    assert(r =~= r.take(t + 1) + r.skip(t + 1));
    lemma_sift_all(r.take(t + 1), Sieve::Forced);
    lemma_sift_add(r.take(t + 1), r.skip(t + 1), Sieve::Forced);
    assert(t < LUT_WIDTH);
    lemma_sift_all(r.take(t + 1), Sieve::Passing(min_key));
    lemma_sift_add(r.take(t + 1), r.skip(t + 1), Sieve::Passing(min_key));
    let p = sift(r, Sieve::Passing(min_key));
    assert(p[t] == x);
    let h = head_of(p);
    lemma_head(p);
    assert(h[t] == x);
    assert(h.contains(x));
    lemma_sift_contains(h, Sieve::Named);
    lemma_sift_contains(h, Sieve::Unnamed);
    let a = accepted_of(c, min_key);
    assert(a.contains(x));
}

/// Exclusion wins: a named light listed for exclusion is neither accepted nor
/// rejected.
pub proof fn law_excluded_light_absent(
    tags: Seq<LightTag>,
    force: Seq<String>,
    exclude: Seq<String>,
    keys: Seq<Option<u32>>,
    min_key: u32,
    i: int,
)
    requires
        keys.len() == tags.len(),
        tags.len() <= usize::MAX,
        0 <= i < tags.len(),
        tags[i].named,
        listed(tags[i].id@, exclude),
    ensures
        forall|k: int|
            0 <= k < accepted_of(
                candidates_of(tags, verdicts_of(tags, force, exclude), keys, tags.len()),
                min_key,
            ).len() ==> (#[trigger] accepted_of(
                candidates_of(tags, verdicts_of(tags, force, exclude), keys, tags.len()),
                min_key,
            )[k]).light != i as usize,
        forall|k: int|
            0 <= k < rejected_of(
                candidates_of(tags, verdicts_of(tags, force, exclude), keys, tags.len()),
                min_key,
            ).len() ==> (#[trigger] rejected_of(
                candidates_of(tags, verdicts_of(tags, force, exclude), keys, tags.len()),
                min_key,
            )[k]).light != i as usize,
{
    let v = verdicts_of(tags, force, exclude);
    let c = candidates_of(tags, v, keys, tags.len());
    let r = ranked(c);
    let p = sift(r, Sieve::Passing(min_key));
    let h = head_of(p);
    lemma_candidates(tags, v, keys, tags.len());
    lemma_ranked(c);
    lemma_sift_contains(r, Sieve::Passing(min_key));
    lemma_sift_contains(r, Sieve::Failing(min_key));
    lemma_head(p);
    lemma_sift_contains(h, Sieve::Named);
    lemma_sift_contains(h, Sieve::Unnamed);
    assert(v[i] == Verdict::Excluded);
    let a = accepted_of(c, min_key);
    let j = rejected_of(c, min_key);
    assert forall|k: int| 0 <= k < a.len() implies (#[trigger] a[k]).light != i as usize by {
        let y = a[k];
        assert(a.contains(y));
        if h.contains(y) {
            assert(p.contains(y));
        }
        if sift(r, Sieve::Failing(min_key)).contains(y) || p.contains(y) {
            assert(r.contains(y));
        }
        assert(c.contains(y));
    }
    assert forall|k: int| 0 <= k < j.len() implies (#[trigger] j[k]).light != i as usize by {
        let y = j[k];
        assert(j.contains(y));
        if h.contains(y) {
            assert(p.contains(y));
        }
        if sift(r, Sieve::Failing(min_key)).contains(y) || p.contains(y) {
            assert(r.contains(y));
        }
        assert(c.contains(y));
    }
}

proof fn lemma_ranked_multiset(s: Seq<Candidate>)
    ensures
        ranked(s).to_multiset() =~= s.to_multiset(),
    decreases s.len(),
{
    broadcast use vstd::seq_lib::group_to_multiset_ensures;

    if s.len() > 0 {
        let r = ranked(s.drop_last());
        let c = s.last();
        lemma_ranked_multiset(s.drop_last());
        lemma_slot(r, c);
        assert(s.drop_last().push(c) =~= s);
        vstd::seq_lib::to_multiset_insert(r, slot(r, c) as int, c);
        vstd::seq_lib::to_multiset_build(s.drop_last(), c);
    }
}

proof fn lemma_sift_multiset(s: Seq<Candidate>, k1: Sieve, k2: Sieve)
    requires
        forall|c: Candidate| admits(k1, c) <==> !admits(k2, c),
    ensures
        sift(s, k1).to_multiset().add(sift(s, k2).to_multiset()) =~= s.to_multiset(),
    decreases s.len(),
{
    broadcast use vstd::seq_lib::group_to_multiset_ensures;
    broadcast use vstd::multiset::group_multiset_axioms;

    if s.len() > 0 {
        let d = s.drop_last();
        let l = s.last();
        lemma_sift_multiset(d, k1, k2);
        assert(d.push(l) =~= s);
        vstd::seq_lib::to_multiset_build(d, l);
        if admits(k1, l) {
            vstd::seq_lib::to_multiset_build(sift(d, k1), l);
        } else {
            vstd::seq_lib::to_multiset_build(sift(d, k2), l);
        }
    }
}

/// Nothing is lost or repeated: the accepted and the rejected lights together
/// hold each candidate exactly as often as the candidates do.
pub proof fn law_selection_keeps_each_candidate_once(c: Seq<Candidate>, min_key: u32)
    ensures
        (accepted_of(c, min_key) + rejected_of(c, min_key)).to_multiset() =~= c.to_multiset(),
{
    broadcast use vstd::seq_lib::lemma_multiset_commutative;
    broadcast use vstd::multiset::group_multiset_axioms;

    let r = ranked(c);
    let p = sift(r, Sieve::Passing(min_key));
    let f = sift(r, Sieve::Failing(min_key));
    let h = head_of(p);
    let o = overflow_of(p);
    lemma_ranked_multiset(c);
    lemma_sift_multiset(r, Sieve::Passing(min_key), Sieve::Failing(min_key));
    lemma_sift_multiset(h, Sieve::Named, Sieve::Unnamed);
    if p.len() > LUT_WIDTH {
        assert(p =~= h + o);
    } else {
        assert(p =~= h + o);
    }
    let a = sift(h, Sieve::Named) + sift(h, Sieve::Unnamed);
    assert(accepted_of(c, min_key) == a);
    assert(rejected_of(c, min_key) == f + o);
    assert((a + (f + o)).to_multiset() =~= a.to_multiset().add((f + o).to_multiset()));
    assert((h + o).to_multiset() =~= h.to_multiset().add(o.to_multiset()));
}

proof fn lemma_candidates_ascending(
    tags: Seq<LightTag>,
    v: Seq<Verdict>,
    keys: Seq<Option<u32>>,
    n: nat,
)
    requires
        n <= v.len(),
        n <= tags.len(),
        n <= keys.len(),
        n <= usize::MAX + 1,
    ensures
        forall|i: int, j: int|
            0 <= i < j < candidates_of(tags, v, keys, n).len() ==> (#[trigger] candidates_of(
                tags,
                v,
                keys,
                n,
            )[i]).light < (#[trigger] candidates_of(tags, v, keys, n)[j]).light,
    decreases n,
{
    if n > 0 {
        let prev = candidates_of(tags, v, keys, (n - 1) as nat);
        lemma_candidates_ascending(tags, v, keys, (n - 1) as nat);
        lemma_candidates(tags, v, keys, (n - 1) as nat);
        let c = candidates_of(tags, v, keys, n);
        assert forall|i: int, j: int| 0 <= i < j < c.len() implies (#[trigger] c[i]).light < (
        #[trigger] c[j]).light by {
            if j == prev.len() {
                assert(prev.contains(prev[i]));
            } else {
                assert(c[i] == prev[i] && c[j] == prev[j]);
            }
        }
    }
}

/// Each light appears once: among the accepted and the rejected lights of a
/// surface no light occurs twice.
pub proof fn law_each_light_once(
    tags: Seq<LightTag>,
    force: Seq<String>,
    exclude: Seq<String>,
    keys: Seq<Option<u32>>,
    min_key: u32,
)
    requires
        keys.len() == tags.len(),
        tags.len() <= usize::MAX,
    ensures
        forall|i: int, j: int|
            0 <= i < j < (accepted_of(
                candidates_of(tags, verdicts_of(tags, force, exclude), keys, tags.len()),
                min_key,
            ) + rejected_of(
                candidates_of(tags, verdicts_of(tags, force, exclude), keys, tags.len()),
                min_key,
            )).len() ==> (#[trigger] (accepted_of(
                candidates_of(tags, verdicts_of(tags, force, exclude), keys, tags.len()),
                min_key,
            ) + rejected_of(
                candidates_of(tags, verdicts_of(tags, force, exclude), keys, tags.len()),
                min_key,
            ))[i]).light != (#[trigger] (accepted_of(
                candidates_of(tags, verdicts_of(tags, force, exclude), keys, tags.len()),
                min_key,
            ) + rejected_of(
                candidates_of(tags, verdicts_of(tags, force, exclude), keys, tags.len()),
                min_key,
            ))[j]).light,
{
    broadcast use vstd::seq_lib::group_to_multiset_ensures;
    broadcast use vstd::multiset::group_multiset_axioms;

    let v = verdicts_of(tags, force, exclude);
    let c = candidates_of(tags, v, keys, tags.len());
    let all = accepted_of(c, min_key) + rejected_of(c, min_key);
    lemma_candidates_ascending(tags, v, keys, tags.len());
    assert(c.no_duplicates()) by {
        assert forall|i: int, j: int| 0 <= i < c.len() && 0 <= j < c.len() && i != j implies c[i]
            != c[j] by {
            if i < j {
                assert(c[i].light < c[j].light);
            } else {
                assert(c[j].light < c[i].light);
            }
        }
    }
    c.lemma_multiset_has_no_duplicates();
    law_selection_keeps_each_candidate_once(c, min_key);
    assert forall|x: Candidate| all.to_multiset().contains(x) implies all.to_multiset().count(x)
        == 1 by {
        assert(c.to_multiset().contains(x));
    }
    all.lemma_multiset_has_no_duplicates_conv();
    assert forall|i: int, j: int| 0 <= i < j < all.len() implies (#[trigger] all[i]).light != (
    #[trigger] all[j]).light by {
        assert(all.contains(all[i]));
        assert(all.contains(all[j]));
        assert(all.to_multiset().count(all[i]) > 0);
        assert(all.to_multiset().count(all[j]) > 0);
        assert(c.contains(all[i]));
        assert(c.contains(all[j]));
        let a = choose|a: int| 0 <= a < c.len() && c[a] == all[i];
        let b = choose|b: int| 0 <= b < c.len() && c[b] == all[j];
        if a < b {
            assert(c[a].light < c[b].light);
        } else if b < a {
            assert(c[b].light < c[a].light);
        } else {
            assert(all[i] != all[j]);
        }
    }
}

} // verus!
