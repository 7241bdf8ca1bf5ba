use pbr_lut_gen::selection::{
    collect_candidates, rank_candidates, score_key, screen_lights, select_lights, sift_candidates,
    Candidate,
    LightTag, Rank, Sieve, Verdict, LUT_WIDTH,
};

fn tag(named: bool, id: &str) -> LightTag {
    LightTag { named, id: id.to_string(), initially_dark: false }
}

fn key(score: f32) -> u32 {
    score_key(score.to_bits())
}

fn names(v: &[&str]) -> Vec<String> {
    v.iter().map(|s| s.to_string()).collect()
}

fn select_for(
    tags: &Vec<LightTag>,
    force: &[&str],
    exclude: &[&str],
    scores: &[f32],
    min_score: f32,
) -> (Vec<usize>, Vec<usize>) {
    let verdicts = screen_lights(tags, &names(force), &names(exclude));
    let keys: Vec<Option<u32>> = scores.iter().map(|s| Some(key(*s))).collect();
    let cands = collect_candidates(tags, &verdicts, &keys);
    let sel = select_lights(&cands, key(min_score));
    (
        sel.accepted.iter().map(|c| c.light).collect(),
        sel.rejected.iter().map(|c| c.light).collect(),
    )
}

#[test]
fn single_light_is_accepted() {
    let tags = vec![tag(false, "12")];
    let (acc, rej) = select_for(&tags, &[], &[], &[1.0], 0.10);
    assert_eq!(acc, vec![0]);
    assert!(rej.is_empty());
}

#[test]
fn occluded_light_is_rejected_with_zero_score() {
    let tags = vec![tag(false, "12")];
    let verdicts = screen_lights(&tags, &vec![], &vec![]);
    let cands = collect_candidates(&tags, &verdicts, &vec![Some(key(0.0))]);
    let sel = select_lights(&cands, key(0.10));
    assert!(sel.accepted.is_empty());
    assert_eq!(sel.rejected.len(), 1);
    assert_eq!(sel.rejected[0].rank, Rank::Scored(key(0.0)));
}

#[test]
fn excluded_light_is_absent() {
    let tags = vec![tag(true, "A"), tag(true, "B")];
    let (acc, rej) = select_for(&tags, &[], &["A"], &[1.0, 1.0], 0.10);
    assert_eq!(acc, vec![1]);
    assert!(rej.is_empty());
}

#[test]
fn exclusion_beats_forcing() {
    let tags = vec![tag(true, "A")];
    let verdicts = screen_lights(&tags, &names(&["A"]), &names(&["A"]));
    assert_eq!(verdicts, vec![Verdict::Excluded]);
}

#[test]
fn lists_apply_to_named_lights_only() {
    let tags = vec![tag(false, "A"), tag(true, "")];
    let verdicts = screen_lights(&tags, &names(&["A", ""]), &names(&["", "A"]));
    assert_eq!(verdicts, vec![Verdict::Scored, Verdict::Scored]);
}

#[test]
fn nine_equal_lights_overflow_by_one() {
    let tags: Vec<LightTag> = (0..9).map(|i| tag(false, &format!("{}", i + 1))).collect();
    let (acc, rej) = select_for(&tags, &[], &[], &[1.0; 9], 0.10);
    assert_eq!(acc.len(), LUT_WIDTH);
    assert_eq!(acc, vec![0, 1, 2, 3, 4, 5, 6, 7]);
    assert_eq!(rej, vec![8]);
}

#[test]
fn forced_light_wins_over_better_scores() {
    let mut tags: Vec<LightTag> = (0..9).map(|i| tag(false, &format!("{}", i + 1))).collect();
    tags.push(tag(true, "far"));
    let mut scores = vec![1.0f32; 9];
    scores.push(0.0);
    let (acc, rej) = select_for(&tags, &["far"], &[], &scores, 0.10);
    assert_eq!(acc.len(), LUT_WIDTH);
    assert_eq!(acc[0], 9);
    assert_eq!(rej, vec![7, 8]);
}

#[test]
fn below_minimum_is_rejected_in_rank_order() {
    let tags: Vec<LightTag> = (0..3).map(|i| tag(false, &format!("{}", i))).collect();
    let (acc, rej) = select_for(&tags, &[], &[], &[0.05, 1.0, 0.08], 0.10);
    assert_eq!(acc, vec![1]);
    assert_eq!(rej, vec![2, 0]);
}

#[test]
fn named_lights_come_first() {
    let tags = vec![tag(false, "1"), tag(true, "lamp"), tag(false, "2"), tag(true, "desk")];
    let (acc, _) = select_for(&tags, &[], &[], &[1.0, 0.5, 0.5, 0.3], 0.10);
    assert_eq!(acc, vec![1, 3, 0, 2]);
}

#[test]
fn ranking_is_stable_and_descending() {
    let c = |light: usize, rank: Rank| Candidate { light, named: false, rank };
    let input = vec![
        c(0, Rank::Scored(5)),
        c(1, Rank::Scored(9)),
        c(2, Rank::Forced),
        c(3, Rank::Scored(9)),
        c(4, Rank::Forced),
    ];
    let ranked: Vec<usize> = rank_candidates(&input).iter().map(|c| c.light).collect();
    assert_eq!(ranked, vec![2, 4, 1, 3, 0]);
}

#[test]
fn sieve_keeps_order() {
    let c = |light: usize, named: bool| Candidate { light, named, rank: Rank::Scored(1) };
    let input = vec![c(0, true), c(1, false), c(2, true)];
    let named: Vec<usize> = sift_candidates(&input, Sieve::Named).iter().map(|c| c.light).collect();
    assert_eq!(named, vec![0, 2]);
}

#[test]
fn scored_light_without_key_takes_no_part() {
    let tags = vec![tag(false, "1"), tag(true, "x")];
    let verdicts = screen_lights(&tags, &names(&["x"]), &vec![]);
    let cands = collect_candidates(&tags, &verdicts, &vec![None, None]);
    assert_eq!(cands.len(), 1);
    assert_eq!(cands[0], Candidate { light: 1, named: true, rank: Rank::Forced });
}

#[test]
fn score_keys_follow_float_order() {
    let values = [-2.0f32, -0.5, 0.0, 0.1, 0.5, 1.0, 3.0, f32::INFINITY];
    for pair in values.windows(2) {
        assert!(key(pair[0]) < key(pair[1]));
    }
    assert_eq!(key(1.0), 0xbf80_0000);
    assert_eq!(key(-1.0), !0xbf80_0000u32);
}

#[test]
fn every_candidate_lands_once() {
    let tags: Vec<LightTag> = (0..12).map(|i| tag(i % 3 == 0, &format!("l{}", i))).collect();
    let scores: Vec<f32> = (0..12).map(|i| (i % 5) as f32 / 4.0).collect();
    let (acc, rej) = select_for(&tags, &["l3"], &["l6"], &scores, 0.10);
    let mut all: Vec<usize> = acc.iter().chain(rej.iter()).copied().collect();
    all.sort();
    assert_eq!(all, vec![0, 1, 2, 3, 4, 5, 7, 8, 9, 10, 11]);
    assert!(acc.contains(&3));
}
