//! The three points of a face plane, written `(x y z) (x y z) (x y z)`, as
//! number tokens.
use vstd::prelude::*;

verus! {

/// One parenthesised point: three number tokens separated by white space.
pub const PLANE_POINT_PATTERN: &'static str = r"\(([\d\.\-eE]+)\s+([\d\.\-eE]+)\s+([\d\.\-eE]+)\)";

/// What `regex::Regex::captures_iter` yields for a pattern over a text: for
/// each match in order, the text of every capture group, group 0 first, and
/// empty for a group that took no part.
pub uninterp spec fn regex_groups(pattern: Seq<char>, hay: Seq<char>) -> Seq<Seq<Seq<char>>>;

/// Relies on `regex::Regex::new` and `regex::Regex::captures_iter`: the
/// groups of each match, in order; `None` when the pattern does not compile,
/// which `Regex::new` does only for an invalid pattern or one over its size
/// limit, and the point pattern is neither.
#[verifier::external_body]
fn regex_captures(pattern: &str, hay: &str) -> (r: Option<Vec<Vec<String>>>)
    ensures
        pattern@ == PLANE_POINT_PATTERN@ ==> r is Some,
        r matches Some(m) ==> m@.len() == regex_groups(pattern@, hay@).len() && forall|i: int|
            0 <= i < m@.len() ==> (#[trigger] m@[i])@.len() == regex_groups(pattern@, hay@)[i].len()
                && forall|j: int|
                0 <= j < m@[i]@.len() ==> (#[trigger] m@[i]@[j])@ == regex_groups(
                    pattern@,
                    hay@,
                )[i][j],
{
    let re = regex::Regex::new(pattern).ok()?;
    let mut out = Vec::new();
    for c in re.captures_iter(hay) {
        out.push(c.iter().map(|g| g.map_or(String::new(), |m| m.as_str().to_string())).collect());
    }
    Some(out)
}

/// The nine tokens of three matches, each with three groups after the whole
/// match; `None` unless there are exactly three such matches.
pub open spec fn tokens_of(groups: Seq<Seq<Seq<char>>>) -> Option<Seq<Seq<char>>> {
    if groups.len() == 3 && (forall|i: int| 0 <= i < 3 ==> #[trigger] groups[i].len() == 4) {
        Some(Seq::new(9, |k: int| groups[k / 3][k % 3 + 1]))
    } else {
        None
    }
}

pub open spec fn texts(s: Seq<String>) -> Seq<Seq<char>> {
    s.map_values(|x: String| x@)
}

pub open spec fn group_texts(g: Seq<Vec<String>>) -> Seq<Seq<Seq<char>>> {
    g.map_values(|m: Vec<String>| texts(m@))
}

/// Pick the point tokens out of the matches of the point pattern.
pub fn tokens_from_groups(groups: &Vec<Vec<String>>) -> (r: Option<Vec<String>>)
    ensures
        match r {
            Some(v) => tokens_of(group_texts(groups@)) == Some(texts(v@)),
            None => tokens_of(group_texts(groups@)) is None,
        },
{
    let ghost g = group_texts(groups@);
    if groups.len() != 3 {
        return None;
    }
    let mut i: usize = 0;
    while i < 3
        invariant
            groups@.len() == 3,
            g == group_texts(groups@),
            i <= 3,
            forall|t: int| 0 <= t < i ==> #[trigger] g[t].len() == 4,
        decreases 3 - i,
    {
        if groups[i].len() != 4 {
            assert(g[i as int].len() != 4);
            return None;
        }
        i = i + 1;
    }
    let mut v: Vec<String> = Vec::new();
    let mut k: usize = 0;
    while k < 9
        invariant
            groups@.len() == 3,
            g == group_texts(groups@),
            forall|t: int| 0 <= t < 3 ==> #[trigger] g[t].len() == 4,
            k <= 9,
            v@.len() == k,
            forall|t: int| 0 <= t < k ==> #[trigger] v@[t]@ == g[t / 3][t % 3 + 1],
        decreases 9 - k,
    {
        assert(groups@[(k / 3) as int]@.len() == g[(k / 3) as int].len());
        v.push(groups[k / 3][k % 3 + 1].clone());
        k = k + 1;
    }
    assert(texts(v@) =~= Seq::new(9, |t: int| g[t / 3][t % 3 + 1]));
    Some(v)
}

/// The nine number tokens of a face plane, three per point; `None` unless the
/// text holds exactly three points.
pub fn plane_point_tokens(plane: &str) -> (r: Option<Vec<String>>)
    ensures
        match r {
            Some(v) => tokens_of(regex_groups(PLANE_POINT_PATTERN@, plane@)) == Some(texts(v@)),
            None => tokens_of(regex_groups(PLANE_POINT_PATTERN@, plane@)) is None,
        },
{
    match regex_captures(PLANE_POINT_PATTERN, plane) {
        Some(groups) => {
            proof {
                let g = group_texts(groups@);
                let want = regex_groups(PLANE_POINT_PATTERN@, plane@);
                assert forall|i: int| 0 <= i < g.len() implies #[trigger] g[i] == want[i] by {
                    assert(g[i] =~= want[i]);
                }
                assert(g =~= want);
            }
            tokens_from_groups(&groups)
        },
        None => None,
    }
}

} // verus!
