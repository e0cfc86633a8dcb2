//! Clip selection: draw clips at random from the pool of unused clips, scene
//! by scene, and keep the total length within the budget.
use crate::binary64_sum::{
    add_exec, add_f64, gt_exec, gt_f64, half_count, half_count_exec, is_canon,
    signed_millis, signed_millis_exec, sum_millis, v3,
};
use crate::rng::{choose_multiple_indices, random_usize};
use crate::text::str_eq;
use crate::types::{Clip, Project};
use vstd::prelude::*;

verus! {

/// Length of one transition as counted by the budget, in milliseconds.
pub const TRANSITION_MS: i128 = 500;

// ---------------------------------------------------------------------------
// Durations
// ---------------------------------------------------------------------------

/// Sum of the clips' lengths, in milliseconds.
pub open spec fn sum_ms(s: Seq<Clip>) -> int
    decreases s.len(),
{
    if s.len() == 0 {
        0
    } else {
        sum_ms(s.drop_last()) + s.last().duration_ms
    }
}

/// Total length of the clips played in a row, counting one transition of
/// `TRANSITION_MS` between each two neighbours.
pub open spec fn total_ms(s: Seq<Clip>) -> int {
    sum_ms(s) + (if s.len() > 1 { (s.len() - 1) * 500 } else { 0 })
}

/// The clips' lengths, in milliseconds.
pub open spec fn lengths(s: Seq<Clip>) -> Seq<int> {
    s.map_values(|c: Clip| c.duration_ms as int)
}

/// The total length as the front end computes it in `f64` seconds: the
/// lengths added left to right, then `(n - 1) as f64 * 0.5` added for the
/// transitions.
pub open spec fn total_f64(s: Seq<Clip>) -> (bool, nat, int) {
    add_f64(
        sum_millis(lengths(s)),
        if s.len() > 1 {
            half_count((s.len() - 1) as nat)
        } else {
            (false, 0, 0)
        },
    )
}

/// The clips run longer than `max_ms`: their `f64` total is above
/// `max_ms` as `f64` seconds.
pub open spec fn over_budget(s: Seq<Clip>, max_ms: int) -> bool {
    gt_f64(total_f64(s), signed_millis(max_ms))
}

/// Whether the clips run longer than `max_ms`, compared as the front end
/// compares its `f64` seconds.
pub fn exceeds_budget(clips: &[Clip], max_ms: i32) -> (r: bool)
    ensures
        r == over_budget(clips@, max_ms as int),
{
    let mut acc: (bool, u128, i128) = (false, 0, 0);
    let mut i: usize = 0;
    while i < clips.len()
        invariant
            i <= clips@.len(),
            v3(acc) == sum_millis(lengths(clips@).take(i as int)),
            is_canon(v3(acc)),
            acc.1 != 0 ==> -63 - 52 * (i as int) <= acc.2 <= -29 + 2 * (i as int),
            acc.1 == 0 ==> acc.2 == 0,
        decreases clips.len() - i,
    {
        let d = signed_millis_exec(clips[i].duration_ms);
        proof {
            assert(lengths(clips@).take(i + 1).drop_last() =~= lengths(clips@).take(i as int));
            assert(lengths(clips@).take(i + 1).last() == clips@[i as int].duration_ms as int);
        }
        acc = add_exec(acc, d);
        i = i + 1;
    }
    assert(lengths(clips@).take(clips@.len() as int) =~= lengths(clips@));
    let t = if clips.len() > 1 {
        half_count_exec(clips.len() - 1)
    } else {
        (false, 0, 0)
    };
    let total = add_exec(acc, t);
    let m = signed_millis_exec(max_ms);
    gt_exec(total, m)
}

/// Total length with transitions, in milliseconds.
pub fn total_duration_with_transitions(clips: &[Clip]) -> (t: i128)
    ensures
        t == total_ms(clips@),
{
    let mut acc: i128 = 0;
    let mut i: usize = 0;
    while i < clips.len()
        invariant
            i <= clips@.len(),
            acc == sum_ms(clips@.take(i as int)),
            -2147483648 * (i as int) <= acc <= 2147483647 * (i as int),
        decreases clips.len() - i,
    {
        assert(clips@.take(i + 1).drop_last() =~= clips@.take(i as int));
        acc = acc + clips[i].duration_ms as i128;
        i = i + 1;
    }
    assert(clips@.take(clips@.len() as int) =~= clips@);
    let transitions: i128 = if clips.len() > 1 {
        (clips.len() - 1) as i128 * TRANSITION_MS
    } else {
        0
    };
    acc + transitions
}

// ---------------------------------------------------------------------------
// Drawing clips
// ---------------------------------------------------------------------------

/// Positions `< n` of the unused clips of `scene`, in increasing order.
pub open spec fn pool_upto(clips: Seq<Clip>, scene: Seq<char>, n: int) -> Seq<usize>
    decreases n,
{
    if n <= 0 {
        seq![]
    } else {
        let p = pool_upto(clips, scene, n - 1);
        if !clips[n - 1].used && clips[n - 1].scene_id@ == scene {
            p.push((n - 1) as usize)
        } else {
            p
        }
    }
}

/// Positions of the unused clips of `scene`, in increasing order.
pub open spec fn scene_pool(clips: Seq<Clip>, scene: Seq<char>) -> Seq<usize> {
    pool_upto(clips, scene, clips.len() as int)
}

/// `chosen` is an admissible draw for `scene`: as many distinct positions
/// of its pool as `picks` allows and the pool holds.
pub open spec fn valid_draw(clips: Seq<Clip>, scene: Seq<char>, picks: int, chosen: Seq<usize>) -> bool {
    let pool = scene_pool(clips, scene);
    &&& chosen.len() == (if picks < pool.len() { picks } else { pool.len() as int })
    &&& chosen.no_duplicates()
    &&& forall|i: int| 0 <= i < chosen.len() ==> pool.contains(#[trigger] chosen[i])
}

/// The clips at the positions `chosen`, in that order.
pub open spec fn gather(clips: Seq<Clip>, chosen: Seq<usize>) -> Seq<Clip> {
    chosen.map_values(|x: usize| clips[x as int])
}

/// The draws of all scenes, concatenated in scene order.
pub open spec fn assemble(clips: Seq<Clip>, draws: Seq<Seq<usize>>) -> Seq<Clip>
    decreases draws.len(),
{
    if draws.len() == 0 {
        seq![]
    } else {
        assemble(clips, draws.drop_last()) + gather(clips, draws.last())
    }
}

/// One admissible draw per scene of `project`.
pub open spec fn valid_draws(project: Project, picks: int, draws: Seq<Seq<usize>>) -> bool {
    &&& draws.len() == project.scenes@.len()
    &&& forall|k: int|
        0 <= k < draws.len() ==> valid_draw(
            project.clips@,
            project.scenes@[k]@,
            picks,
            #[trigger] draws[k],
        )
}

/// `result` is a possible outcome of drawing `picks` clips per scene.
pub open spec fn is_selection(project: Project, picks: int, result: Seq<Clip>) -> bool {
    exists|draws: Seq<Seq<usize>>|
        #![trigger assemble(project.clips@, draws)]
        valid_draws(project, picks, draws) && result == assemble(project.clips@, draws)
}

proof fn lemma_pool_upto(clips: Seq<Clip>, scene: Seq<char>, n: int)
    requires
        0 <= n <= clips.len() <= usize::MAX,
    ensures
        forall|i: int|
            0 <= i < pool_upto(clips, scene, n).len() ==> {
                let x = #[trigger] pool_upto(clips, scene, n)[i];
                &&& x < n
                &&& !clips[x as int].used
                &&& clips[x as int].scene_id@ == scene
            },
        forall|i: int, j: int|
            0 <= i < j < pool_upto(clips, scene, n).len() ==> pool_upto(clips, scene, n)[i]
                < pool_upto(clips, scene, n)[j],
    decreases n,
{
    if n > 0 {
        lemma_pool_upto(clips, scene, n - 1);
        let p = pool_upto(clips, scene, n - 1);
        if !clips[n - 1].used && clips[n - 1].scene_id@ == scene {
            assert(pool_upto(clips, scene, n) == p.push((n - 1) as usize));
        } else {
            assert(pool_upto(clips, scene, n) == p);
        }
    }
}

/// The pool of a scene: its clips are unused, of that scene, in range, and
/// no position occurs twice.
pub proof fn lemma_scene_pool(clips: Seq<Clip>, scene: Seq<char>)
    requires
        clips.len() <= usize::MAX,
    ensures
        scene_pool(clips, scene).no_duplicates(),
        forall|i: int|
            0 <= i < scene_pool(clips, scene).len() ==> {
                let x = #[trigger] scene_pool(clips, scene)[i];
                &&& x < clips.len()
                &&& !clips[x as int].used
                &&& clips[x as int].scene_id@ == scene
            },
{
    lemma_pool_upto(clips, scene, clips.len() as int);
    let p = scene_pool(clips, scene);
    assert forall|i: int, j: int| 0 <= i < p.len() && 0 <= j < p.len() && i != j implies p[i]
        != p[j] by {
        if i < j {
            assert(p[i] < p[j]);
        } else {
            assert(p[j] < p[i]);
        }
    }
}

/// Positions of the unused clips of `scene`.
fn unused_in_scene(clips: &Vec<Clip>, scene: &str) -> (pool: Vec<usize>)
    ensures
        pool@ == scene_pool(clips@, scene@),
{
    let mut pool: Vec<usize> = Vec::new();
    let mut i: usize = 0;
    while i < clips.len()
        invariant
            i <= clips@.len(),
            pool@ == pool_upto(clips@, scene@, i as int),
        decreases clips.len() - i,
    {
        if !clips[i].used && str_eq(clips[i].scene_id.as_str(), scene) {
            pool.push(i);
        }
        i = i + 1;
    }
    pool
}

/// Whether some scene of `project` has fewer unused clips than `picks`, so
/// that its draw is cut short.
pub open spec fn draw_cut_short(project: Project, picks: int) -> bool {
    exists|k: int|
        0 <= k < project.scenes@.len() && scene_pool(project.clips@, (#[trigger] project.scenes@[k])@).len()
            < picks
}

/// Draws, for each scene in order, `picks_per_scene` distinct unused clips of
/// that scene at random (all of them when it has fewer). Returns the clips
/// and whether the draw was cut short in some scene.
pub fn select_clips(project: &Project, picks_per_scene: usize) -> (r: (Vec<Clip>, bool))
    ensures
        is_selection(*project, picks_per_scene as int, r.0@),
        r.1 == draw_cut_short(*project, picks_per_scene as int),
{
    let mut selected: Vec<Clip> = Vec::new();
    let mut short = false;
    let ghost mut draws: Seq<Seq<usize>> = seq![];
    let mut k: usize = 0;
    while k < project.scenes.len()
        invariant
            k <= project.scenes@.len(),
            draws.len() == k,
            short == exists|q: int|
                0 <= q < k && scene_pool(project.clips@, (#[trigger] project.scenes@[q])@).len()
                    < picks_per_scene,
            forall|j: int|
                0 <= j < k ==> valid_draw(
                    project.clips@,
                    project.scenes@[j]@,
                    picks_per_scene as int,
                    #[trigger] draws[j],
                ),
            selected@ == assemble(project.clips@, draws),
        decreases project.scenes.len() - k,
    {
        let pool = unused_in_scene(&project.clips, project.scenes[k].as_str());
        let _n_clips = project.clips.len();
        proof {
            lemma_scene_pool(project.clips@, project.scenes@[k as int]@);
        }
        let ghost short_before = short;
        if pool.len() < picks_per_scene {
            short = true;
        }
        proof {
            if short && !short_before {
                assert(scene_pool(project.clips@, project.scenes@[k as int]@).len() < picks_per_scene);
            }
            if short_before {
                let q = choose|q: int|
                    0 <= q < k && scene_pool(project.clips@, (#[trigger] project.scenes@[q])@).len()
                        < picks_per_scene;
                assert(0 <= q < k + 1);
            }
        }
        let chosen = choose_multiple_indices(&pool, picks_per_scene);
        let ghost before = selected@;
        let mut j: usize = 0;
        while j < chosen.len()
            invariant
                j <= chosen@.len(),
                selected@ == before + gather(project.clips@, chosen@.take(j as int)),
                forall|i: int| 0 <= i < chosen@.len() ==> pool@.contains(#[trigger] chosen@[i]),
                pool@ == scene_pool(project.clips@, project.scenes@[k as int]@),
                forall|i: int|
                    0 <= i < pool@.len() ==> (#[trigger] pool@[i]) < project.clips@.len(),
            decreases chosen.len() - j,
        {
            let x = chosen[j];
            assert(pool@.contains(chosen@[j as int]));
            let c = project.clips[x].copy();
            selected.push(c);
            assert(gather(project.clips@, chosen@.take(j + 1)) =~= gather(
                project.clips@,
                chosen@.take(j as int),
            ).push(c));
            j = j + 1;
        }
        assert(chosen@.take(chosen@.len() as int) =~= chosen@);
        proof {
            let old_draws = draws;
            draws = draws.push(chosen@);
            assert(draws.drop_last() =~= old_draws);
            assert forall|j: int|
                0 <= j < k + 1 implies valid_draw(
                project.clips@,
                project.scenes@[j]@,
                picks_per_scene as int,
                #[trigger] draws[j],
            ) by {
                if j < k {
                    assert(draws[j] == old_draws[j]);
                }
            }
        }
        k = k + 1;
    }
    (selected, short)
}

proof fn lemma_assemble_unused(project: Project, picks: int, draws: Seq<Seq<usize>>, n: int)
    requires
        0 <= n <= draws.len(),
        valid_draws(project, picks, draws),
        project.clips@.len() <= usize::MAX,
    ensures
        forall|i: int|
            0 <= i < assemble(project.clips@, draws.take(n)).len() ==> {
                let c = #[trigger] assemble(project.clips@, draws.take(n))[i];
                &&& !c.used
                &&& exists|k: int|
                    0 <= k < project.scenes@.len() && project.scenes@[k]@ == c.scene_id@
                &&& project.clips@.contains(c)
            },
    decreases n,
{
    let clips = project.clips@;
    if n > 0 {
        lemma_assemble_unused(project, picks, draws, n - 1);
        assert(draws.take(n).drop_last() =~= draws.take(n - 1));
        let d = draws[n - 1];
        assert(draws.take(n).last() == d);
        lemma_scene_pool(clips, project.scenes@[n - 1]@);
        assert(valid_draw(clips, project.scenes@[n - 1]@, picks, draws[n - 1]));
        let a = assemble(clips, draws.take(n - 1));
        assert forall|i: int|
            0 <= i < assemble(clips, draws.take(n)).len() implies {
            let c = #[trigger] assemble(clips, draws.take(n))[i];
            &&& !c.used
            &&& exists|k: int| 0 <= k < project.scenes@.len() && project.scenes@[k]@ == c.scene_id@
            &&& clips.contains(c)
        } by {
            if i >= a.len() {
                let x = d[i - a.len()];
                assert(scene_pool(clips, project.scenes@[n - 1]@).contains(x));
                let pool = scene_pool(clips, project.scenes@[n - 1]@);
                let p = choose|p: int| 0 <= p < pool.len() && #[trigger] pool[p] == x;
                assert(pool[p] == x);
                assert(clips[x as int] == assemble(clips, draws.take(n))[i]);
            }
        }
    }
}

/// Every drawn clip is an unused clip of the project, of one of its scenes.
pub proof fn lemma_selection_unused(project: Project, picks: int, selected: Seq<Clip>)
    requires
        is_selection(project, picks, selected),
        project.clips@.len() <= usize::MAX,
    ensures
        forall|i: int|
            0 <= i < selected.len() ==> {
                &&& !(#[trigger] selected[i]).used
                &&& exists|k: int|
                    0 <= k < project.scenes@.len() && project.scenes@[k]@ == selected[i].scene_id@
                &&& project.clips@.contains(selected[i])
            },
{
    let draws = choose|draws: Seq<Seq<usize>>|
        #![trigger assemble(project.clips@, draws)]
        valid_draws(project, picks, draws) && selected == assemble(project.clips@, draws);
    lemma_assemble_unused(project, picks, draws, draws.len() as int);
    assert(draws.take(draws.len() as int) =~= draws);
}

// ---------------------------------------------------------------------------
// Keeping within the budget
// ---------------------------------------------------------------------------

/// How many of `s[0..i]` belong to `scene`.
pub open spec fn count_before(s: Seq<Clip>, i: int, scene: Seq<char>) -> nat
    decreases i,
{
    if i <= 0 {
        0
    } else {
        count_before(s, i - 1, scene) + (if s[i - 1].scene_id@ == scene { 1nat } else { 0nat })
    }
}

/// `s[0..n]` without the clips beyond the first `picks` of each scene.
pub open spec fn quota_upto(s: Seq<Clip>, picks: int, n: int) -> Seq<Clip>
    decreases n,
{
    if n <= 0 {
        seq![]
    } else {
        quota_upto(s, picks, n - 1) + (if count_before(s, n - 1, s[n - 1].scene_id@) < picks {
            seq![s[n - 1]]
        } else {
            seq![]
        })
    }
}

/// `s` without the clips beyond the first `picks` of each scene.
pub open spec fn within_quota(s: Seq<Clip>, picks: int) -> Seq<Clip> {
    quota_upto(s, picks, s.len() as int)
}

/// `a` is `b` with some of its items left out, the rest kept in order.
pub open spec fn is_subseq(a: Seq<Clip>, b: Seq<Clip>) -> bool {
    exists|idx: Seq<int>|
        #![trigger idx.len()]
        idx.len() == a.len() && (forall|k: int|
            0 <= k < idx.len() ==> 0 <= #[trigger] idx[k] < b.len() && a[k] == b[idx[k]]) && (
        forall|k1: int, k2: int| 0 <= k1 < k2 < idx.len() ==> idx[k1] < idx[k2])
}

proof fn lemma_subseq_refl(b: Seq<Clip>)
    ensures
        is_subseq(b, b),
{
    let idx = Seq::new(b.len(), |i: int| i);
    assert(idx.len() == b.len());
}

proof fn lemma_subseq_remove(a: Seq<Clip>, b: Seq<Clip>, r: int)
    requires
        is_subseq(a, b),
        0 <= r < a.len(),
    ensures
        is_subseq(a.remove(r), b),
{
    let idx = choose|idx: Seq<int>|
        #![trigger idx.len()]
        idx.len() == a.len() && (forall|k: int|
            0 <= k < idx.len() ==> 0 <= #[trigger] idx[k] < b.len() && a[k] == b[idx[k]]) && (
        forall|k1: int, k2: int| 0 <= k1 < k2 < idx.len() ==> idx[k1] < idx[k2]);
    let idx2 = idx.remove(r);
    assert(idx2.len() == a.remove(r).len());
    assert forall|k: int| 0 <= k < idx2.len() implies 0 <= #[trigger] idx2[k] < b.len()
        && a.remove(r)[k] == b[idx2[k]] by {
        if k < r {
            assert(idx2[k] == idx[k]);
        } else {
            assert(idx2[k] == idx[k + 1]);
        }
    }
    assert forall|k1: int, k2: int| 0 <= k1 < k2 < idx2.len() implies idx2[k1] < idx2[k2] by {
        if k2 < r {
        } else if k1 < r {
            assert(idx[k1] < idx[k2 + 1]);
        } else {
            assert(idx[k1 + 1] < idx[k2 + 1]);
        }
    }
}

/// How many of `s[0..i]` belong to `scene`.
fn count_scene_before(s: &Vec<Clip>, i: usize, scene: &str) -> (n: usize)
    requires
        i <= s@.len(),
    ensures
        n == count_before(s@, i as int, scene@),
{
    let mut n: usize = 0;
    let mut j: usize = 0;
    while j < i
        invariant
            j <= i <= s@.len(),
            n == count_before(s@, j as int, scene@),
            n <= j,
        decreases i - j,
    {
        if str_eq(s[j].scene_id.as_str(), scene) {
            n = n + 1;
        }
        j = j + 1;
    }
    n
}

/// `after` is `prev` with one clip dropped, where `prev` is drawn from
/// `kept`, holds more than one clip and is over the budget.
pub open spec fn dropped_one(kept: Seq<Clip>, after: Seq<Clip>, max_ms: int) -> bool {
    exists|prev: Seq<Clip>, i: int|
        #![trigger prev.remove(i)]
        is_subseq(prev, kept) && over_budget(prev, max_ms) && prev.len() > 1 && 0 <= i < prev.len()
            && after == prev.remove(i)
}

/// `after` is what `auto_reduce_selections` may leave of `before`: when
/// `before` is over the budget, the clips within the scene quota, from which
/// clips are then dropped one at a time while the total is over the budget
/// and more than one clip is left.
pub open spec fn reduced(before: Seq<Clip>, after: Seq<Clip>, picks: int, max_ms: int) -> bool {
    &&& !over_budget(before, max_ms) ==> after == before
    &&& over_budget(before, max_ms) ==> {
        let kept = within_quota(before, picks);
        &&& is_subseq(after, kept)
        &&& !over_budget(after, max_ms) || after.len() <= 1
        &&& kept.len() >= 1 ==> after.len() >= 1
        &&& !over_budget(kept, max_ms) ==> after == kept
        &&& after == kept || dropped_one(kept, after, max_ms)
    }
}

/// If the clips run longer than `max_duration_ms`, drop clips: first those
/// beyond `picks_per_scene` in their scene, then clips at random until the
/// total fits, always keeping at least one.
pub fn auto_reduce_selections(
    selected: &mut Vec<Clip>,
    picks_per_scene: usize,
    max_duration_ms: i32,
)
    ensures
        reduced(old(selected)@, final(selected)@, picks_per_scene as int, max_duration_ms as int),
{
    if !exceeds_budget(selected.as_slice(), max_duration_ms) {
        return;
    }
    // 1) no scene keeps more than `picks_per_scene` clips
    let mut kept: Vec<Clip> = Vec::new();
    let mut i: usize = 0;
    while i < selected.len()
        invariant
            i <= selected@.len(),
            selected@ == old(selected)@,
            kept@ == quota_upto(selected@, picks_per_scene as int, i as int),
        decreases selected.len() - i,
    {
        let n = count_scene_before(selected, i, selected[i].scene_id.as_str());
        if n < picks_per_scene {
            kept.push(selected[i].copy());
            assert(kept@ =~= quota_upto(selected@, picks_per_scene as int, i + 1));
        } else {
            assert(kept@ =~= quota_upto(selected@, picks_per_scene as int, i + 1));
        }
        i = i + 1;
    }
    let ghost quota = kept@;
    *selected = kept;
    proof {
        lemma_subseq_refl(quota);
    }
    // 2) drop clips at random while the total is still too long
    while exceeds_budget(selected.as_slice(), max_duration_ms)
        && selected.len() > 1
        invariant
            is_subseq(selected@, quota),
            quota.len() >= 1 ==> selected@.len() >= 1,
            quota == within_quota(old(selected)@, picks_per_scene as int),
            !over_budget(quota, max_duration_ms as int) ==> selected@ == quota,
            selected@ == quota || dropped_one(quota, selected@, max_duration_ms as int),
        decreases selected.len(),
    {
        let r = random_usize();
        let idx = r % selected.len();
        let ghost prev = selected@;
        proof {
            lemma_subseq_remove(selected@, quota, idx as int);
        }
        selected.remove(idx);
        assert(selected@ == prev.remove(idx as int));
    }
}

// ---------------------------------------------------------------------------
// Used marks
// ---------------------------------------------------------------------------

/// `j` is the first position of `clips` whose path is `path`.
pub open spec fn is_first_with_path(clips: Seq<Clip>, path: Seq<char>, j: int) -> bool {
    &&& 0 <= j < clips.len()
    &&& clips[j].path@ == path
    &&& forall|i: int| 0 <= i < j ==> (#[trigger] clips[i]).path@ != path
}

/// Position `j` of `clips` is the first one with the path of some clip of
/// `selected`.
pub open spec fn is_marked(clips: Seq<Clip>, selected: Seq<Clip>, j: int) -> bool {
    exists|k: int| 0 <= k < selected.len() && is_first_with_path(clips, (#[trigger] selected[k]).path@, j)
}

/// `after` is `before` with the clips of `selected` marked used: for each
/// selected clip, the first clip with its path.
pub open spec fn marked(before: Seq<Clip>, selected: Seq<Clip>, after: Seq<Clip>) -> bool {
    &&& after.len() == before.len()
    &&& forall|j: int|
        0 <= j < before.len() ==> #[trigger] after[j] == with_used(
            before[j],
            before[j].used || is_marked(before, selected, j),
        )
}

/// `c` with its used mark set to `used`.
pub open spec fn with_used(c: Clip, used: bool) -> Clip {
    Clip { used: used, ..c }
}

/// The first position of `clips` whose path is `path`.
fn first_with_path(clips: &Vec<Clip>, path: &String) -> (r: Option<usize>)
    ensures
        r matches Some(j) ==> j < clips@.len() && clips@[j as int].path@ == path@ && forall|i: int|
            0 <= i < j ==> (#[trigger] clips@[i]).path@ != path@,
        r is None ==> forall|i: int| 0 <= i < clips@.len() ==> (#[trigger] clips@[i]).path@ != path@,
{
    let mut j: usize = 0;
    while j < clips.len()
        invariant
            j <= clips@.len(),
            forall|i: int| 0 <= i < j ==> (#[trigger] clips@[i]).path@ != path@,
        decreases clips.len() - j,
    {
        if clips[j].path == *path {
            return Some(j);
        }
        j = j + 1;
    }
    None
}

/// Marks the selected clips as used: for each selected clip, the first clip
/// of the project with the same path.
pub fn mark_used(project: &mut Project, selected: &[Clip])
    ensures
        marked(old(project).clips@, selected@, final(project).clips@),
        *final(project) == (Project { clips: final(project).clips, ..*old(project) }),
{
    let ghost start = project.clips@;
    let mut k: usize = 0;
    while k < selected.len()
        invariant
            k <= selected@.len(),
            project.clips@.len() == start.len(),
            start == old(project).clips@,
            *project == (Project { clips: project.clips, ..*old(project) }),
            forall|j: int|
                0 <= j < start.len() ==> #[trigger] project.clips@[j] == with_used(
                    start[j],
                    start[j].used || is_marked(start, selected@.take(k as int), j),
                ),
        decreases selected.len() - k,
    {
        let s = &selected[k];
        let found = first_with_path(&project.clips, &s.path);
        assert forall|i: int| 0 <= i < start.len() implies (#[trigger] project.clips@[i]).path
            == start[i].path by {
            assert(project.clips@[i] == with_used(
                start[i],
                start[i].used || is_marked(start, selected@.take(k as int), i),
            ));
        }
        proof {
            match found {
                Some(jf) => {
                    assert forall|i: int| 0 <= i < jf implies (#[trigger] start[i]).path@ != s.path@ by {
                        assert(project.clips@[i].path == start[i].path);
                    }
                    assert(project.clips@[jf as int].path == start[jf as int].path);
                },
                None => {
                    assert forall|i: int| 0 <= i < start.len() implies (#[trigger] start[i]).path@ != s.path@ by {
                        assert(project.clips@[i].path == start[i].path);
                    }
                },
            }
        }
        let ghost before = project.clips@;
        match found {
            Some(j) => {
                let c = project.clips[j].copy();
                let c2 = Clip { used: true, ..c };
                project.clips.set(j, c2);
            },
            None => {},
        }
        proof {
            assert(selected@.take(k + 1).drop_last() =~= selected@.take(k as int));
            assert forall|j2: int| 0 <= j2 < start.len() implies #[trigger] project.clips@[j2]
                == with_used(start[j2], start[j2].used || is_marked(start, selected@.take(k + 1), j2)) by {
                let m_old = is_marked(start, selected@.take(k as int), j2);
                let m_new = is_marked(start, selected@.take(k + 1), j2);
                if m_old {
                    let kk = choose|kk: int|
                        0 <= kk < selected@.take(k as int).len() && is_first_with_path(
                            start,
                            (#[trigger] selected@.take(k as int)[kk]).path@,
                            j2,
                        );
                    assert(selected@.take(k + 1)[kk] == selected@.take(k as int)[kk]);
                }
                if is_first_with_path(start, s.path@, j2) {
                    assert(selected@.take(k + 1)[k as int] == *s);
                }
                if m_new && !is_first_with_path(start, s.path@, j2) {
                    let kk = choose|kk: int|
                        0 <= kk < selected@.take(k + 1).len() && is_first_with_path(
                            start,
                            (#[trigger] selected@.take(k + 1)[kk]).path@,
                            j2,
                        );
                    if kk < k {
                        assert(selected@.take(k as int)[kk] == selected@.take(k + 1)[kk]);
                    }
                }
                match found {
                    Some(jf) => {
                        if j2 == jf {
                            assert(is_first_with_path(start, s.path@, j2));
                        } else {
                            assert(project.clips@[j2] == before[j2]);
                            if is_first_with_path(start, s.path@, j2) {
                                assert(start[jf as int].path@ == s.path@);
                                if j2 < jf {
                                } else {
                                    assert(start[jf as int].path@ != s.path@);
                                }
                            }
                        }
                    },
                    None => {
                        if is_first_with_path(start, s.path@, j2) {
                            assert(start[j2].path@ == s.path@);
                        }
                    },
                }
            }
        }
        k = k + 1;
    }
    assert(selected@.take(selected@.len() as int) =~= selected@);
}

/// Clears every used mark.
pub fn reset_all_clips(project: &mut Project)
    ensures
        final(project).clips@.len() == old(project).clips@.len(),
        forall|j: int|
            0 <= j < old(project).clips@.len() ==> #[trigger] final(project).clips@[j]
                == with_used(old(project).clips@[j], false),
        *final(project) == (Project { clips: final(project).clips, ..*old(project) }),
{
    let mut j: usize = 0;
    while j < project.clips.len()
        invariant
            j <= project.clips@.len() == old(project).clips@.len(),
            *project == (Project { clips: project.clips, ..*old(project) }),
            forall|i: int|
                0 <= i < j ==> #[trigger] project.clips@[i] == with_used(old(project).clips@[i], false),
            forall|i: int|
                j <= i < project.clips@.len() ==> #[trigger] project.clips@[i] == old(project).clips@[i],
        decreases project.clips.len() - j,
    {
        let c = project.clips[j].copy();
        let c2 = Clip { used: false, ..c };
        project.clips.set(j, c2);
        j = j + 1;
    }
}

/// A clip once drawn and marked used is not drawn again: when the clips of
/// `selected`, drawn from `before`, have been marked (giving the project
/// `p`), no later draw from `p` holds a clip with the path of a selected
/// clip. This needs every clip of `before` to have its own path.
pub proof fn lemma_used_not_redrawn(
    before: Seq<Clip>,
    selected: Seq<Clip>,
    p: Project,
    picks: int,
    later: Seq<Clip>,
)
    requires
        before.len() <= usize::MAX,
        marked(before, selected, p.clips@),
        forall|a: int, b: int|
            0 <= a < b < before.len() ==> (#[trigger] before[a]).path@ != (#[trigger] before[b]).path@,
        forall|k: int| 0 <= k < selected.len() ==> before.contains(#[trigger] selected[k]),
        is_selection(p, picks, later),
    ensures
        forall|i: int, k: int|
            0 <= i < later.len() && 0 <= k < selected.len() ==> (#[trigger] later[i]).path@
                != (#[trigger] selected[k]).path@,
{
    let clips = p.clips@;
    lemma_selection_unused(p, picks, later);
    assert forall|i: int, k: int|
        0 <= i < later.len() && 0 <= k < selected.len() implies (#[trigger] later[i]).path@
        != (#[trigger] selected[k]).path@ by {
        assert(!later[i].used && clips.contains(later[i]));
        let q = choose|q: int| 0 <= q < clips.len() && clips[q] == later[i];
        let q2 = choose|q2: int| 0 <= q2 < before.len() && before[q2] == selected[k];
        assert(clips[q] == with_used(before[q], before[q].used || is_marked(before, selected, q)));
        if later[i].path@ == selected[k].path@ {
            if q < q2 {
                assert(before[q].path@ != before[q2].path@);
            } else if q2 < q {
                assert(before[q2].path@ != before[q].path@);
            }
            assert forall|m: int| 0 <= m < q implies (#[trigger] before[m]).path@ != selected[k].path@ by {
                assert(before[m].path@ != before[q].path@);
            }
            assert(is_first_with_path(before, selected[k].path@, q));
            assert(is_marked(before, selected, q));
        }
    }
}

proof fn lemma_pool_upto_has(clips: Seq<Clip>, scene: Seq<char>, n: int, j: int)
    requires
        0 <= j < n <= clips.len() <= usize::MAX,
        !clips[j].used,
        clips[j].scene_id@ == scene,
    ensures
        pool_upto(clips, scene, n).contains(j as usize),
    decreases n,
{
    let p = pool_upto(clips, scene, n - 1);
    if j < n - 1 {
        lemma_pool_upto_has(clips, scene, n - 1, j);
        let w = choose|w: int| 0 <= w < p.len() && p[w] == j as usize;
        if !clips[n - 1].used && clips[n - 1].scene_id@ == scene {
            assert(pool_upto(clips, scene, n) == p.push((n - 1) as usize));
            assert(pool_upto(clips, scene, n)[w] == j as usize);
        } else {
            assert(pool_upto(clips, scene, n) == p);
        }
    } else {
        assert(pool_upto(clips, scene, n) == p.push((n - 1) as usize));
        assert(pool_upto(clips, scene, n)[p.len() as int] == j as usize);
    }
}

/// After `reset_all_clips` every clip can be drawn again: each clip is in
/// the pool of its scene.
pub proof fn lemma_reset_restores_pool(before: Seq<Clip>, after: Seq<Clip>, j: int)
    requires
        before.len() <= usize::MAX,
        after.len() == before.len(),
        forall|i: int| 0 <= i < before.len() ==> #[trigger] after[i] == with_used(before[i], false),
        0 <= j < before.len(),
    ensures
        scene_pool(after, before[j].scene_id@).contains(j as usize),
{
    assert(after[j] == with_used(before[j], false));
    lemma_pool_upto_has(after, before[j].scene_id@, after.len() as int, j);
}

} // verus!
