//! Which lights a surface receives: screening against the surface's force and
//! exclude lists, ranking by score, the cut at the texture's width, and the
//! preference for named lights.
use vstd::prelude::*;

verus! {

/// Columns of the look-up texture, hence the most lights one surface can take.
pub const LUT_WIDTH: usize = 8;

/// How a candidate ranks. `Scored` carries an order key: a larger key is a
/// larger score. A forced light ranks above every scored one.
#[derive(Clone, Copy, Debug, PartialEq, Eq, Structural)]
pub enum Rank {
    Forced,
    Scored(u32),
}

/// A light that takes part in the selection for one surface.
#[derive(Clone, Copy, Debug, PartialEq, Eq, Structural)]
pub struct Candidate {
    /// Position of the light in the list of all lights.
    pub light: usize,
    /// The light has a target name.
    pub named: bool,
    pub rank: Rank,
}

/// What the surface's force and exclude lists say of one light.
#[derive(Clone, Copy, Debug, PartialEq, Eq, Structural)]
pub enum Verdict {
    /// Named and listed for exclusion: the light takes no part.
    Excluded,
    /// Named and listed for inclusion: the light is taken whatever its score.
    Forced,
    /// The light is scored against the surface.
    Scored,
}

/// What the selection and the wiring read of a light: whether it is named,
/// its id, and whether it starts switched off.
#[derive(Clone, Debug)]
pub struct LightTag {
    pub named: bool,
    pub id: String,
    pub initially_dark: bool,
}

/// The outcome of the selection for one surface.
#[derive(Clone, Debug)]
pub struct Selection {
    pub accepted: Vec<Candidate>,
    pub rejected: Vec<Candidate>,
}

/// A filter over candidates.
#[derive(Clone, Copy, Debug)]
pub enum Sieve {
    Passing(u32),
    Failing(u32),
    Named,
    Unnamed,
    Forced,
}

/// `a` ranks at least as high as `b`.
pub open spec fn at_least(a: Rank, b: Rank) -> bool {
    match (a, b) {
        (Rank::Forced, _) => true,
        (Rank::Scored(_), Rank::Forced) => false,
        (Rank::Scored(x), Rank::Scored(y)) => x >= y,
    }
}

/// A candidate clears the surface's minimum score: forced ones always do.
pub open spec fn passes(c: Candidate, min_key: u32) -> bool {
    match c.rank {
        Rank::Forced => true,
        Rank::Scored(k) => k >= min_key,
    }
}

pub open spec fn admits(k: Sieve, c: Candidate) -> bool {
    match k {
        Sieve::Passing(m) => passes(c, m),
        Sieve::Failing(m) => !passes(c, m),
        Sieve::Named => c.named,
        Sieve::Unnamed => !c.named,
        Sieve::Forced => c.rank == Rank::Forced,
    }
}

/// The candidates of `s` that the sieve admits, in their order.
pub open spec fn sift(s: Seq<Candidate>, k: Sieve) -> Seq<Candidate>
    decreases s.len(),
{
    if s.len() == 0 {
        s
    } else {
        let rest = sift(s.drop_last(), k);
        if admits(k, s.last()) {
            rest.push(s.last())
        } else {
            rest
        }
    }
}

/// `id` is a non-empty name that occurs in `names`.
pub open spec fn listed(id: Seq<char>, names: Seq<String>) -> bool {
    id.len() > 0 && exists|j: int| 0 <= j < names.len() && names[j]@ == id
}

/// Exclusion is tested first, and both lists apply to named lights only.
pub open spec fn verdict_of(tag: LightTag, force: Seq<String>, exclude: Seq<String>) -> Verdict {
    if tag.named && listed(tag.id@, exclude) {
        Verdict::Excluded
    } else if tag.named && listed(tag.id@, force) {
        Verdict::Forced
    } else {
        Verdict::Scored
    }
}

/// The verdicts on all lights.
pub open spec fn verdicts_of(tags: Seq<LightTag>, force: Seq<String>, exclude: Seq<String>) -> Seq<
    Verdict,
> {
    Seq::new(tags.len(), |i: int| verdict_of(tags[i], force, exclude))
}

/// How many of the first `n` verdicts force their light.
pub open spec fn forced_lights(v: Seq<Verdict>, n: nat) -> nat
    decreases n,
{
    if n == 0 {
        0
    } else {
        forced_lights(v, (n - 1) as nat) + if v[n - 1] == Verdict::Forced {
            1nat
        } else {
            0nat
        }
    }
}

/// The candidates among the first `n` lights, in light order: forced lights,
/// and scored lights that have a key (a positive score). Excluded lights and
/// scored lights without a key take no part.
pub open spec fn candidates_of(
    tags: Seq<LightTag>,
    v: Seq<Verdict>,
    keys: Seq<Option<u32>>,
    n: nat,
) -> Seq<Candidate>
    decreases n,
{
    if n == 0 {
        Seq::empty()
    } else {
        let prev = candidates_of(tags, v, keys, (n - 1) as nat);
        let i = n - 1;
        match v[i] {
            Verdict::Forced => prev.push(
                Candidate { light: i as usize, named: tags[i].named, rank: Rank::Forced },
            ),
            Verdict::Scored => match keys[i] {
                Some(k) => prev.push(
                    Candidate { light: i as usize, named: tags[i].named, rank: Rank::Scored(k) },
                ),
                None => prev,
            },
            Verdict::Excluded => prev,
        }
    }
}

/// Where a stable insertion puts `c` into `r`: after every leading candidate
/// that ranks at least as high.
pub open spec fn slot(r: Seq<Candidate>, c: Candidate) -> nat
    decreases r.len(),
{
    if r.len() == 0 {
        0
    } else if at_least(r[0].rank, c.rank) {
        1 + slot(r.drop_first(), c)
    } else {
        0
    }
}

/// The candidates by descending rank; equal ranks keep their order.
pub open spec fn ranked(s: Seq<Candidate>) -> Seq<Candidate>
    decreases s.len(),
{
    if s.len() == 0 {
        s
    } else {
        let r = ranked(s.drop_last());
        r.insert(slot(r, s.last()) as int, s.last())
    }
}

/// Ranks do not increase along `s`.
pub open spec fn descending(s: Seq<Candidate>) -> bool {
    forall|i: int, j: int| 0 <= i < j < s.len() ==> at_least(s[i].rank, s[j].rank)
}

/// The first `LUT_WIDTH` candidates, or all of them.
pub open spec fn head_of(p: Seq<Candidate>) -> Seq<Candidate> {
    if p.len() <= LUT_WIDTH {
        p
    } else {
        p.take(LUT_WIDTH as int)
    }
}

/// What lies past the first `LUT_WIDTH` candidates.
pub open spec fn overflow_of(p: Seq<Candidate>) -> Seq<Candidate> {
    if p.len() <= LUT_WIDTH {
        Seq::empty()
    } else {
        p.skip(LUT_WIDTH as int)
    }
}

/// Named candidates first, each group in its former order.
pub open spec fn named_first(s: Seq<Candidate>) -> Seq<Candidate> {
    sift(s, Sieve::Named) + sift(s, Sieve::Unnamed)
}

/// The accepted lights: the best passing candidates, at most `LUT_WIDTH`,
/// named ones first.
pub open spec fn accepted_of(c: Seq<Candidate>, min_key: u32) -> Seq<Candidate> {
    named_first(head_of(sift(ranked(c), Sieve::Passing(min_key))))
}

/// The rejected lights: those under the minimum score in rank order, then the
/// passing ones that did not fit.
pub open spec fn rejected_of(c: Seq<Candidate>, min_key: u32) -> Seq<Candidate> {
    sift(ranked(c), Sieve::Failing(min_key)) + overflow_of(
        sift(ranked(c), Sieve::Passing(min_key)),
    )
}

/// The order key of a 32-bit float given by its bits: negative floats have
/// all bits flipped, the others the sign bit set, so that unsigned order of
/// keys follows the order of the floats.
pub open spec fn key_of_bits(bits: u32) -> u32 {
    if bits >= 0x8000_0000 {
        !bits
    } else {
        bits | 0x8000_0000
    }
}

/// The order key of a score given by the bits of its float.
pub fn score_key(bits: u32) -> (r: u32)
    ensures
        r == key_of_bits(bits),
        bits < 0x8000_0000 ==> r == bits + 0x8000_0000,
{
    if bits >= 0x8000_0000 {
        !bits
    } else {
        assert(bits < 0x8000_0000 ==> bits | 0x8000_0000 == bits + 0x8000_0000) by (bit_vector);
        bits | 0x8000_0000
    }
}

fn at_least_exec(a: Rank, b: Rank) -> (r: bool)
    ensures
        r == at_least(a, b),
{
    match (a, b) {
        (Rank::Forced, _) => true,
        (Rank::Scored(_), Rank::Forced) => false,
        (Rank::Scored(x), Rank::Scored(y)) => x >= y,
    }
}

fn admits_exec(k: Sieve, c: Candidate) -> (r: bool)
    ensures
        r == admits(k, c),
{
    match k {
        Sieve::Passing(m) => match c.rank {
            Rank::Forced => true,
            Rank::Scored(s) => s >= m,
        },
        Sieve::Failing(m) => match c.rank {
            Rank::Forced => false,
            Rank::Scored(s) => s < m,
        },
        Sieve::Named => c.named,
        Sieve::Unnamed => !c.named,
        Sieve::Forced => match c.rank {
            Rank::Forced => true,
            Rank::Scored(_) => false,
        },
    }
}

/// The candidates that the sieve admits, in their order.
pub fn sift_candidates(v: &Vec<Candidate>, k: Sieve) -> (r: Vec<Candidate>)
    ensures
        r@ == sift(v@, k),
{
    let mut r: Vec<Candidate> = Vec::new();
    let mut i: usize = 0;
    while i < v.len()
        invariant
            i <= v@.len(),
            r@ == sift(v@.take(i as int), k),
        decreases v@.len() - i,
    {
        assert(v@.take(i + 1).drop_last() =~= v@.take(i as int));
        if admits_exec(k, v[i]) {
            r.push(v[i]);
        }
        i = i + 1;
    }
    assert(v@.take(v@.len() as int) =~= v@);
    r
}

/// `id` is a non-empty name that occurs in `names`.
fn is_listed(id: &String, names: &Vec<String>) -> (r: bool)
    ensures
        r == listed(id@, names@),
{
    if id.as_str().unicode_len() == 0 {
        return false;
    }
    let mut j: usize = 0;
    while j < names.len()
        invariant
            j <= names@.len(),
            id@.len() > 0,
            forall|t: int| 0 <= t < j ==> names@[t]@ != id@,
        decreases names@.len() - j,
    {
        if names[j] == *id {
            return true;
        }
        j = j + 1;
    }
    false
}

/// Screen every light against the surface's force and exclude lists.
pub fn screen_lights(tags: &Vec<LightTag>, force: &Vec<String>, exclude: &Vec<String>) -> (v: Vec<
    Verdict,
>)
    ensures
        v@ == verdicts_of(tags@, force@, exclude@),
{
    let mut v: Vec<Verdict> = Vec::new();
    let mut i: usize = 0;
    while i < tags.len()
        invariant
            i <= tags@.len(),
            v@.len() == i,
            forall|t: int| 0 <= t < i ==> v@[t] == verdict_of(tags@[t], force@, exclude@),
        decreases tags@.len() - i,
    {
        let tag = &tags[i];
        let verdict = if tag.named && is_listed(&tag.id, exclude) {
            Verdict::Excluded
        } else if tag.named && is_listed(&tag.id, force) {
            Verdict::Forced
        } else {
            Verdict::Scored
        };
        v.push(verdict);
        i = i + 1;
    }
    assert(v@ =~= verdicts_of(tags@, force@, exclude@));
    v
}

/// The candidates, in light order: each forced light, and each scored light
/// whose key is present. `keys[i]` is read only for a scored light.
pub fn collect_candidates(
    tags: &Vec<LightTag>,
    verdicts: &Vec<Verdict>,
    keys: &Vec<Option<u32>>,
) -> (c: Vec<Candidate>)
    requires
        verdicts@.len() == tags@.len(),
        keys@.len() == tags@.len(),
    ensures
        c@ == candidates_of(tags@, verdicts@, keys@, tags@.len() as nat),
{
    let mut c: Vec<Candidate> = Vec::new();
    let mut i: usize = 0;
    while i < tags.len()
        invariant
            i <= tags@.len(),
            verdicts@.len() == tags@.len(),
            keys@.len() == tags@.len(),
            c@ == candidates_of(tags@, verdicts@, keys@, i as nat),
        decreases tags@.len() - i,
    {
        match verdicts[i] {
            Verdict::Forced => {
                c.push(Candidate { light: i, named: tags[i].named, rank: Rank::Forced });
            },
            Verdict::Scored => {
                match keys[i] {
                    Some(k) => {
                        c.push(Candidate { light: i, named: tags[i].named, rank: Rank::Scored(k) });
                    },
                    None => {},
                }
            },
            Verdict::Excluded => {},
        }
        i = i + 1;
    }
    c
}

/// Rank candidates by descending rank; equal ranks keep their order.
pub fn rank_candidates(cands: &Vec<Candidate>) -> (r: Vec<Candidate>)
    ensures
        r@ == ranked(cands@),
{
    let mut r: Vec<Candidate> = Vec::new();
    let mut i: usize = 0;
    while i < cands.len()
        invariant
            i <= cands@.len(),
            r@ == ranked(cands@.take(i as int)),
        decreases cands@.len() - i,
    {
        let c = cands[i];
        let mut j: usize = 0;
        while j < r.len() && at_least_exec(r[j].rank, c.rank)
            invariant
                j <= r@.len(),
                forall|k: int| 0 <= k < j ==> at_least(#[trigger] r@[k].rank, c.rank),
            decreases r@.len() - j,
        {
            j = j + 1;
        }
        proof {
            crate::selection_laws::lemma_slot(r@, c);
            if slot(r@, c) < j {
                assert(at_least(r@[slot(r@, c) as int].rank, c.rank));
            }
            if slot(r@, c) > j {
                assert(at_least(r@[j as int].rank, c.rank));
            }
            assert(cands@.take(i + 1).drop_last() =~= cands@.take(i as int));
            assert(cands@.take(i + 1).last() == c);
        }
        r.insert(j, c);
        i = i + 1;
    }
    assert(cands@.take(cands@.len() as int) =~= cands@);
    r
}

/// Select the lights of one surface from its candidates: rank them, keep
/// those that clear `min_key`, cut at `LUT_WIDTH` (what is cut goes to the
/// rejected ones), and put named lights first.
pub fn select_lights(cands: &Vec<Candidate>, min_key: u32) -> (sel: Selection)
    ensures
        sel.accepted@ == accepted_of(cands@, min_key),
        sel.rejected@ == rejected_of(cands@, min_key),
{
    let ranked = rank_candidates(cands);
    let mut top = sift_candidates(&ranked, Sieve::Passing(min_key));
    let mut rejected = sift_candidates(&ranked, Sieve::Failing(min_key));
    proof {
        let p = top@;
        if p.len() <= LUT_WIDTH {
            assert(rejected@ + overflow_of(p) =~= rejected@);
        }
    }
    if top.len() > LUT_WIDTH {
        let mut overflow = top.split_off(LUT_WIDTH);
        rejected.append(&mut overflow);
    }
    let mut accepted = sift_candidates(&top, Sieve::Named);
    let mut unnamed = sift_candidates(&top, Sieve::Unnamed);
    accepted.append(&mut unnamed);
    Selection { accepted, rejected }
}

} // verus!
