//! Gathering the runtimes of a host: one descriptor per resolved path, the
//! newest major version first.

use crate::probe::{check_java, described, JavaInfo, JavaInfoView, ProbeReport, ProbeReportView};
use vstd::prelude::*;

verus! {

/// The views of a sequence of descriptors.
pub open spec fn info_views(infos: Seq<JavaInfo>) -> Seq<JavaInfoView> {
    Seq::new(infos.len(), |i: int| infos[i]@)
}

/// The views of a sequence of reports.
pub open spec fn report_views(reports: Seq<ProbeReport>) -> Seq<ProbeReportView> {
    Seq::new(reports.len(), |i: int| reports[i]@)
}

/// The descriptors that a sequence of reports yields, in the reports' order.
pub open spec fn probed(reports: Seq<ProbeReportView>) -> Seq<JavaInfoView>
    decreases reports.len(),
{
    if reports.len() == 0 {
        Seq::empty()
    } else {
        let earlier = probed(reports.drop_last());
        match described(reports.last()) {
            Some(info) => earlier.push(info),
            None => earlier,
        }
    }
}

/// Whether one of `infos` has the path `path`.
pub open spec fn has_path(infos: Seq<JavaInfoView>, path: Seq<char>) -> bool {
    exists|i: int| 0 <= i < infos.len() && (#[trigger] infos[i]).path == path
}

/// `infos` without every descriptor whose path an earlier one already has.
pub open spec fn first_by_path(infos: Seq<JavaInfoView>) -> Seq<JavaInfoView>
    decreases infos.len(),
{
    if infos.len() == 0 {
        Seq::empty()
    } else {
        let kept = first_by_path(infos.drop_last());
        if has_path(kept, infos.last().path) {
            kept
        } else {
            kept.push(infos.last())
        }
    }
}

/// No two descriptors share a path.
pub open spec fn distinct_paths(infos: Seq<JavaInfoView>) -> bool {
    forall|i: int, j: int|
        0 <= i < j < infos.len() ==> (#[trigger] infos[i]).path != (#[trigger] infos[j]).path
}

/// No descriptor stands before one of a higher major version.
pub open spec fn ranked(infos: Seq<JavaInfoView>) -> bool {
    forall|i: int, j: int|
        0 <= i < j < infos.len() ==> (#[trigger] infos[i]).major_version >= (
        #[trigger] infos[j]).major_version
}

/// The test for "has major version `major`".
pub open spec fn major_is(major: u32) -> spec_fn(JavaInfoView) -> bool {
    |info: JavaInfoView| info.major_version == major
}

/// The descriptors of `infos` with major version `major`, in their order.
pub open spec fn with_major(infos: Seq<JavaInfoView>, major: u32) -> Seq<JavaInfoView> {
    infos.filter(major_is(major))
}

/// The least index at or after `from` whose descriptor has a major version
/// below `major`, or the length of `infos`.
pub open spec fn rank_position(infos: Seq<JavaInfoView>, major: u32, from: int) -> int
    decreases infos.len() - from,
{
    if from < 0 || from >= infos.len() {
        infos.len() as int
    } else if infos[from].major_version < major {
        from
    } else {
        rank_position(infos, major, from + 1)
    }
}

/// `ranked_so_far` with `info` placed behind every descriptor whose major
/// version is at least its own.
pub open spec fn place(ranked_so_far: Seq<JavaInfoView>, info: JavaInfoView) -> Seq<JavaInfoView> {
    ranked_so_far.insert(rank_position(ranked_so_far, info.major_version, 0), info)
}

/// `infos` ordered by major version, highest first, descriptors of one major
/// version in the order in which `infos` has them.
pub open spec fn stable_rank(infos: Seq<JavaInfoView>) -> Seq<JavaInfoView>
    decreases infos.len(),
{
    if infos.len() == 0 {
        Seq::empty()
    } else {
        place(stable_rank(infos.drop_last()), infos.last())
    }
}

/// What discovery reports for a sequence of probe reports.
pub open spec fn discovered(reports: Seq<ProbeReportView>) -> Seq<JavaInfoView> {
    stable_rank(first_by_path(probed(reports)))
}

/// Tests whether one of `infos` has the path `path`.
pub fn contains_path(infos: &Vec<JavaInfo>, path: &String) -> (r: bool)
    ensures
        r == has_path(info_views(infos@), path@),
{
    let mut i: usize = 0;
    while i < infos.len()
        invariant
            i <= infos@.len(),
            forall|j: int| 0 <= j < i ==> (#[trigger] info_views(infos@)[j]).path != path@,
        decreases infos@.len() - i,
    {
        if infos[i].path == *path {
            proof {
                assert(info_views(infos@)[i as int].path == path@);
            }
            return true;
        }
        i = i + 1;
    }
    false
}

/// Keeps, of the runtimes that the reports describe, the first under each
/// resolved path.
pub fn collect_distinct(reports: &Vec<ProbeReport>) -> (r: Vec<JavaInfo>)
    ensures
        info_views(r@) == first_by_path(probed(report_views(reports@))),
{
    let mut found: Vec<JavaInfo> = Vec::new();
    let mut i: usize = 0;
    proof {
        assert(report_views(reports@).take(0) =~= Seq::<ProbeReportView>::empty());
        assert(info_views(found@) =~= Seq::<JavaInfoView>::empty());
    }
    while i < reports.len()
        invariant
            i <= reports@.len(),
            info_views(found@) == first_by_path(probed(report_views(reports@).take(i as int))),
        decreases reports@.len() - i,
    {
        let ghost before = report_views(reports@).take(i as int);
        let ghost after = report_views(reports@).take(i + 1);
        let ghost kept = info_views(found@);
        proof {
            assert(after.drop_last() =~= before);
            assert(after.last() == reports@[i as int]@);
        }
        match check_java(&reports[i]) {
            Some(info) => {
                proof {
                    assert(probed(after) == probed(before).push(info@));
                    assert(probed(after).drop_last() =~= probed(before));
                }
                if !contains_path(&found, &info.path) {
                    found.push(info);
                    proof {
                        assert(info_views(found@) =~= kept.push(info@));
                    }
                }
            },
            None => {
                proof {
                    assert(probed(after) == probed(before));
                }
            },
        }
        i = i + 1;
    }
    proof {
        assert(report_views(reports@).take(reports@.len() as int) =~= report_views(reports@));
    }
    found
}

/// Where `rank_position` lands: everything before it is at least `major`,
/// and the descriptor there, if any, is below `major`.
pub proof fn lemma_rank_position(infos: Seq<JavaInfoView>, major: u32, from: int)
    requires
        0 <= from <= infos.len(),
    ensures
        from <= rank_position(infos, major, from) <= infos.len(),
        forall|j: int|
            from <= j < rank_position(infos, major, from) ==> (#[trigger] infos[j]).major_version
                >= major,
        rank_position(infos, major, from) < infos.len() ==> infos[rank_position(
            infos,
            major,
            from,
        )].major_version < major,
    decreases infos.len() - from,
{
    if from < infos.len() && infos[from].major_version >= major {
        lemma_rank_position(infos, major, from + 1);
    }
}

/// Placing a descriptor into a ranked sequence leaves it ranked.
pub proof fn lemma_place_ranked(infos: Seq<JavaInfoView>, info: JavaInfoView)
    requires
        ranked(infos),
    ensures
        ranked(place(infos, info)),
        place(infos, info).len() == infos.len() + 1,
{
    let p = rank_position(infos, info.major_version, 0);
    lemma_rank_position(infos, info.major_version, 0);
    let placed = place(infos, info);
    assert forall|i: int, j: int| 0 <= i < j < placed.len() implies (
    #[trigger] placed[i]).major_version >= (#[trigger] placed[j]).major_version by {
        if j < p {
            assert(placed[i] == infos[i] && placed[j] == infos[j]);
        } else if j == p {
            assert(placed[i] == infos[i]);
        } else if i < p {
            assert(placed[i] == infos[i] && placed[j] == infos[j - 1]);
            assert(infos[p].major_version < info.major_version);
            if j - 1 > p {
                assert(infos[p].major_version >= infos[j - 1].major_version);
            }
        } else if i == p {
            assert(placed[j] == infos[j - 1]);
            if j - 1 > p {
                assert(infos[p].major_version >= infos[j - 1].major_version);
            }
        } else {
            assert(placed[i] == infos[i - 1] && placed[j] == infos[j - 1]);
        }
    }
}

/// A sequence none of whose descriptors has major version `major` holds no
/// descriptor with that major version.
pub proof fn lemma_with_major_none(infos: Seq<JavaInfoView>, major: u32)
    requires
        forall|i: int| 0 <= i < infos.len() ==> (#[trigger] infos[i]).major_version != major,
    ensures
        with_major(infos, major) == Seq::<JavaInfoView>::empty(),
    decreases infos.len(),
{
    reveal(Seq::filter);
    if infos.len() > 0 {
        let rest = infos.drop_last();
        assert forall|i: int| 0 <= i < rest.len() implies (#[trigger] rest[i]).major_version
            != major by {
            assert(rest[i] == infos[i]);
        }
        lemma_with_major_none(rest, major);
        assert(infos.last() == infos[infos.len() - 1]);
    }
}

/// Appending a descriptor appends it to the descriptors of its own major
/// version and changes no others.
pub proof fn lemma_with_major_push(infos: Seq<JavaInfoView>, info: JavaInfoView, major: u32)
    ensures
        with_major(infos.push(info), major) == if info.major_version == major {
            with_major(infos, major).push(info)
        } else {
            with_major(infos, major)
        },
{
    reveal(Seq::filter);
    assert(infos.push(info).drop_last() =~= infos);
}

/// Placing a descriptor into a ranked sequence puts it behind the
/// descriptors of its own major version and disturbs no others.
pub proof fn lemma_place_stable(infos: Seq<JavaInfoView>, info: JavaInfoView, major: u32)
    requires
        ranked(infos),
    ensures
        with_major(place(infos, info), major) == if info.major_version == major {
            with_major(infos, major).push(info)
        } else {
            with_major(infos, major)
        },
{
    let p = rank_position(infos, info.major_version, 0);
    lemma_rank_position(infos, info.major_version, 0);
    let head = infos.subrange(0, p);
    let tail = infos.subrange(p, infos.len() as int);
    let pred = major_is(major);
    assert(infos =~= head + tail);
    assert(place(infos, info) == head.push(info) + tail);
    Seq::filter_distributes_over_add(head, tail, pred);
    Seq::filter_distributes_over_add(head.push(info), tail, pred);
    lemma_with_major_push(head, info, major);
    if info.major_version == major {
        assert forall|i: int| 0 <= i < tail.len() implies (#[trigger] tail[i]).major_version
            != major by {
            assert(tail[i] == infos[p + i]);
            if i > 0 {
                assert(infos[p].major_version >= infos[p + i].major_version);
            }
        }
        lemma_with_major_none(tail, major);
        assert(with_major(head, major).push(info) + Seq::<JavaInfoView>::empty() =~= with_major(
            head,
            major,
        ).push(info));
        assert(with_major(head, major) + Seq::<JavaInfoView>::empty() =~= with_major(
            head,
            major,
        ));
    }
}

/// Ranking orders by major version, highest first, and keeps every
/// descriptor.
pub proof fn lemma_stable_rank_ranked(infos: Seq<JavaInfoView>)
    ensures
        ranked(stable_rank(infos)),
        stable_rank(infos).len() == infos.len(),
    decreases infos.len(),
{
    if infos.len() > 0 {
        lemma_stable_rank_ranked(infos.drop_last());
        lemma_place_ranked(stable_rank(infos.drop_last()), infos.last());
    }
}

/// Ranking is stable: the descriptors of any one major version come out in
/// the order in which they went in.
pub proof fn lemma_stable_rank_stable(infos: Seq<JavaInfoView>, major: u32)
    ensures
        with_major(stable_rank(infos), major) == with_major(infos, major),
    decreases infos.len(),
{
    reveal(Seq::filter);
    if infos.len() > 0 {
        let rest = infos.drop_last();
        lemma_stable_rank_stable(rest, major);
        lemma_stable_rank_ranked(rest);
        lemma_place_stable(stable_rank(rest), infos.last(), major);
        lemma_with_major_push(rest, infos.last(), major);
        assert(rest.push(infos.last()) =~= infos);
    }
}

/// A descriptor of `infos` stands among those of its major version, and
/// whatever stands among those of a major version is a descriptor of
/// `infos` with that major version.
pub proof fn lemma_with_major_members(infos: Seq<JavaInfoView>, major: u32)
    ensures
        forall|i: int|
            0 <= i < infos.len() && (#[trigger] infos[i]).major_version == major ==> with_major(
                infos,
                major,
            ).contains(infos[i]),
        forall|i: int|
            0 <= i < with_major(infos, major).len() ==> {
                &&& infos.contains(#[trigger] with_major(infos, major)[i])
                &&& with_major(infos, major)[i].major_version == major
            },
    decreases infos.len(),
{
    reveal(Seq::filter);
    if infos.len() > 0 {
        let rest = infos.drop_last();
        let last = infos.last();
        let all = with_major(infos, major);
        let earlier = with_major(rest, major);
        lemma_with_major_members(rest, major);
        lemma_with_major_push(rest, last, major);
        assert(rest.push(last) =~= infos);
        assert forall|i: int|
            0 <= i < infos.len() && (#[trigger] infos[i]).major_version == major implies all.contains(
            infos[i],
        ) by {
            if i < rest.len() {
                assert(rest[i] == infos[i]);
                let k = choose|k: int| 0 <= k < earlier.len() && earlier[k] == rest[i];
                assert(all[k] == infos[i]);
            } else {
                assert(all[all.len() - 1] == infos[i]);
            }
        }
        assert forall|i: int| 0 <= i < all.len() implies {
            &&& infos.contains(#[trigger] all[i])
            &&& all[i].major_version == major
        } by {
            if i < earlier.len() {
                assert(all[i] == earlier[i]);
                let k = choose|k: int| 0 <= k < rest.len() && rest[k] == earlier[i];
                assert(infos[k] == all[i]);
            } else {
                assert(infos[infos.len() - 1] == all[i]);
            }
        }
    }
}

/// Two ranked sequences with the same descriptors of each major version, in
/// the same order, are one and the same.
pub proof fn lemma_ranking_unique(a: Seq<JavaInfoView>, b: Seq<JavaInfoView>)
    requires
        ranked(a),
        ranked(b),
        forall|major: u32| with_major(a, major) == with_major(b, major),
    ensures
        a == b,
    decreases a.len(),
{
    if a.len() == 0 {
        if b.len() > 0 {
            let m = b[0].major_version;
            lemma_with_major_members(b, m);
            lemma_with_major_members(a, m);
            assert(with_major(a, m) == with_major(b, m));
            assert(with_major(b, m).contains(b[0]));
            let k = choose|k: int| 0 <= k < with_major(b, m).len() && with_major(b, m)[k] == b[0];
            assert(a.contains(with_major(a, m)[k]));
        }
        assert(a =~= b);
    } else {
        let x = a.last();
        let m = x.major_version;
        let a0 = a.drop_last();
        lemma_with_major_push(a0, x, m);
        assert(a0.push(x) =~= a);
        lemma_with_major_members(a, m);
        lemma_with_major_members(b, m);
        assert(with_major(a, m) == with_major(b, m));
        assert(with_major(a, m).last() == x);
        assert(b.contains(with_major(b, m)[with_major(b, m).len() - 1]));
        let y = b.last();
        let n = y.major_version;
        let b0 = b.drop_last();
        assert(b0.push(y) =~= b);
        if n != m {
            lemma_with_major_members(a, n);
            lemma_with_major_members(b, n);
            assert(with_major(a, n) == with_major(b, n));
            // `y` stands in `a`, and `x` stands in `b`.
            assert(b[b.len() - 1].major_version == n);
            assert(with_major(b, n).contains(b[b.len() - 1]));
            let i = choose|i: int| 0 <= i < with_major(b, n).len() && with_major(b, n)[i] == y;
            assert(a.contains(with_major(a, n)[i]));
            let ka = choose|k: int| 0 <= k < a.len() && a[k] == y;
            assert(a[a.len() - 1] == x);
            let kb = choose|k: int| 0 <= k < b.len() && b[k] == x;
            if ka < a.len() - 1 {
                assert(a[ka].major_version >= a[a.len() - 1].major_version);
            }
            if kb < b.len() - 1 {
                assert(b[kb].major_version >= b[b.len() - 1].major_version);
            }
            assert(false);
        }
        lemma_with_major_push(b0, y, m);
        assert(with_major(a0, m).push(x) == with_major(b0, m).push(y));
        assert(with_major(b0, m).push(y).last() == y);
        assert(x == y);
        assert(with_major(a0, m) =~= with_major(a0, m).push(x).drop_last());
        assert(with_major(b0, m) =~= with_major(b0, m).push(y).drop_last());
        assert forall|major: u32| with_major(a0, major) == with_major(b0, major) by {
            lemma_with_major_push(a0, x, major);
            lemma_with_major_push(b0, y, major);
            assert(with_major(a, major) == with_major(b, major));
        }
        assert(ranked(a0)) by {
            assert forall|i: int, j: int| 0 <= i < j < a0.len() implies (
            #[trigger] a0[i]).major_version >= (#[trigger] a0[j]).major_version by {
                assert(a0[i] == a[i] && a0[j] == a[j]);
            }
        }
        assert(ranked(b0)) by {
            assert forall|i: int, j: int| 0 <= i < j < b0.len() implies (
            #[trigger] b0[i]).major_version >= (#[trigger] b0[j]).major_version by {
                assert(b0[i] == b[i] && b0[j] == b[j]);
            }
        }
        lemma_ranking_unique(a0, b0);
        assert(a =~= b);
    }
}

/// Ranking is determined by what it promises: whatever orders `infos` by
/// major version, highest first, and keeps the descriptors of each major
/// version in their order, is the ranking of `infos`.
pub proof fn lemma_ranking_determined(infos: Seq<JavaInfoView>, result: Seq<JavaInfoView>)
    requires
        ranked(result),
        forall|major: u32| with_major(result, major) == with_major(infos, major),
    ensures
        result == stable_rank(infos),
{
    lemma_stable_rank_ranked(infos);
    assert forall|major: u32| with_major(result, major) == with_major(
        stable_rank(infos),
        major,
    ) by {
        lemma_stable_rank_stable(infos, major);
    }
    lemma_ranking_unique(result, stable_rank(infos));
}

/// Placing a descriptor adds its path to those present and no other.
pub proof fn lemma_place_paths(infos: Seq<JavaInfoView>, info: JavaInfoView)
    ensures
        forall|path: Seq<char>|
            has_path(place(infos, info), path) <==> (has_path(infos, path) || info.path == path),
        distinct_paths(infos) && !has_path(infos, info.path) ==> distinct_paths(
            place(infos, info),
        ),
{
    let p = rank_position(infos, info.major_version, 0);
    lemma_rank_position(infos, info.major_version, 0);
    let placed = place(infos, info);
    assert(placed.len() == infos.len() + 1);
    assert(placed[p] == info);
    assert forall|path: Seq<char>| has_path(placed, path) implies (has_path(infos, path)
        || info.path == path) by {
        let i = choose|i: int| 0 <= i < placed.len() && (#[trigger] placed[i]).path == path;
        if i < p {
            assert(placed[i] == infos[i]);
        } else if i > p {
            assert(placed[i] == infos[i - 1]);
        }
    }
    assert forall|path: Seq<char>| (has_path(infos, path) || info.path == path) implies has_path(
        placed,
        path,
    ) by {
        if has_path(infos, path) {
            let i = choose|i: int| 0 <= i < infos.len() && (#[trigger] infos[i]).path == path;
            if i < p {
                assert(placed[i] == infos[i]);
            } else {
                assert(placed[i + 1] == infos[i]);
            }
        }
    }
    if distinct_paths(infos) && !has_path(infos, info.path) {
        assert forall|i: int, j: int| 0 <= i < j < placed.len() implies (
        #[trigger] placed[i]).path != (#[trigger] placed[j]).path by {
            let a = if i < p {
                i
            } else {
                i - 1
            };
            let b = if j < p {
                j
            } else {
                j - 1
            };
            if i != p {
                assert(placed[i] == infos[a]);
            }
            if j != p {
                assert(placed[j] == infos[b]);
            }
        }
    }
}

/// Ranking neither adds nor loses a path, and keeps paths distinct.
pub proof fn lemma_stable_rank_paths(infos: Seq<JavaInfoView>)
    ensures
        forall|path: Seq<char>| has_path(stable_rank(infos), path) <==> has_path(infos, path),
        distinct_paths(infos) ==> distinct_paths(stable_rank(infos)),
    decreases infos.len(),
{
    if infos.len() > 0 {
        let rest = infos.drop_last();
        let last = infos.last();
        lemma_stable_rank_paths(rest);
        lemma_place_paths(stable_rank(rest), last);
        assert forall|path: Seq<char>| has_path(infos, path) <==> (has_path(rest, path)
            || last.path == path) by {
            if has_path(infos, path) {
                let i = choose|i: int| 0 <= i < infos.len() && (#[trigger] infos[i]).path == path;
                if i < rest.len() {
                    assert(rest[i] == infos[i]);
                }
            }
            if has_path(rest, path) {
                let i = choose|i: int| 0 <= i < rest.len() && (#[trigger] rest[i]).path == path;
                assert(infos[i] == rest[i]);
            }
            if last.path == path {
                assert(infos[infos.len() - 1].path == path);
            }
        }
        if distinct_paths(infos) {
            assert forall|i: int, j: int| 0 <= i < j < rest.len() implies (
            #[trigger] rest[i]).path != (#[trigger] rest[j]).path by {
                assert(rest[i] == infos[i] && rest[j] == infos[j]);
            }
            if has_path(rest, last.path) {
                let i = choose|i: int|
                    0 <= i < rest.len() && (#[trigger] rest[i]).path == last.path;
                assert(infos[i] == rest[i]);
                assert(infos[infos.len() - 1] == last);
            }
        }
    }
}

/// Keeping the first descriptor under each path loses no path and adds
/// none.
pub proof fn lemma_first_by_path_keeps(infos: Seq<JavaInfoView>, path: Seq<char>)
    ensures
        has_path(first_by_path(infos), path) <==> has_path(infos, path),
    decreases infos.len(),
{
    if infos.len() > 0 {
        let rest = infos.drop_last();
        let last = infos.last();
        let kept = first_by_path(rest);
        let all = first_by_path(infos);
        lemma_first_by_path_keeps(rest, path);
        if has_path(all, path) {
            let i = choose|i: int| 0 <= i < all.len() && (#[trigger] all[i]).path == path;
            if i < kept.len() {
                assert(kept[i] == all[i]);
                assert(has_path(kept, path));
                let k = choose|k: int| 0 <= k < rest.len() && (#[trigger] rest[k]).path == path;
                assert(infos[k] == rest[k]);
            } else {
                assert(infos[infos.len() - 1] == last);
            }
        }
        if has_path(infos, path) {
            let k = choose|k: int| 0 <= k < infos.len() && (#[trigger] infos[k]).path == path;
            if k < rest.len() {
                assert(rest[k] == infos[k]);
                assert(has_path(rest, path));
                let i = choose|i: int| 0 <= i < kept.len() && (#[trigger] kept[i]).path == path;
                assert(all[i] == kept[i]);
            } else if has_path(kept, last.path) {
                let i = choose|i: int|
                    0 <= i < kept.len() && (#[trigger] kept[i]).path == last.path;
                assert(all[i] == kept[i]);
            } else {
                assert(all[all.len() - 1] == last);
            }
        }
    }
}

/// Keeping the first descriptor under each path leaves no path twice.
pub proof fn lemma_first_by_path(infos: Seq<JavaInfoView>)
    ensures
        distinct_paths(first_by_path(infos)),
        forall|path: Seq<char>| has_path(first_by_path(infos), path) <==> has_path(infos, path),
    decreases infos.len(),
{
    assert forall|path: Seq<char>| has_path(first_by_path(infos), path) <==> has_path(
        infos,
        path,
    ) by {
        lemma_first_by_path_keeps(infos, path);
    }
    if infos.len() > 0 {
        let rest = infos.drop_last();
        let last = infos.last();
        let kept = first_by_path(rest);
        let all = first_by_path(infos);
        lemma_first_by_path(rest);
        if !has_path(kept, last.path) {
            assert forall|i: int, j: int| 0 <= i < j < all.len() implies (
            #[trigger] all[i]).path != (#[trigger] all[j]).path by {
                assert(all[i] == kept[i]);
                if j < kept.len() {
                    assert(all[j] == kept[j]);
                }
            }
        }
    }
}

/// Whether one of `reports` yields the descriptor `info`.
pub open spec fn comes_from(reports: Seq<ProbeReportView>, info: JavaInfoView) -> bool {
    exists|k: int| 0 <= k < reports.len() && described(#[trigger] reports[k]) == Some(info)
}

/// Every probed descriptor is the one that some report yields.
pub proof fn lemma_probed_members(reports: Seq<ProbeReportView>, i: int)
    requires
        0 <= i < probed(reports).len(),
    ensures
        comes_from(reports, probed(reports)[i]),
    decreases reports.len(),
{
    let rest = reports.drop_last();
    if i < probed(rest).len() {
        lemma_probed_members(rest, i);
        let k = choose|k: int|
            0 <= k < rest.len() && described(#[trigger] rest[k]) == Some(probed(rest)[i]);
        assert(reports[k] == rest[k]);
    } else {
        assert(described(reports[reports.len() - 1]) == Some(probed(reports)[i]));
    }
}

/// Each descriptor that is kept is the first of its path: it stands in
/// `infos` at some index, and no descriptor before that index has its path.
pub proof fn lemma_first_by_path_first(infos: Seq<JavaInfoView>, i: int)
    requires
        0 <= i < first_by_path(infos).len(),
    ensures
        exists|k: int|
            0 <= k < infos.len() && #[trigger] infos[k] == first_by_path(infos)[i] && forall|
                j: int,
            |
                0 <= j < k ==> (#[trigger] infos[j]).path != first_by_path(infos)[i].path,
    decreases infos.len(),
{
    let rest = infos.drop_last();
    let kept = first_by_path(rest);
    let x = first_by_path(infos)[i];
    if i < kept.len() {
        lemma_first_by_path_first(rest, i);
        let k = choose|k: int|
            0 <= k < rest.len() && #[trigger] rest[k] == kept[i] && forall|j: int|
                0 <= j < k ==> (#[trigger] rest[j]).path != kept[i].path;
        assert(infos[k] == rest[k]);
        assert forall|j: int| 0 <= j < k implies (#[trigger] infos[j]).path != x.path by {
            assert(infos[j] == rest[j]);
        }
    } else {
        let k = infos.len() - 1;
        assert(infos[k] == x);
        assert forall|j: int| 0 <= j < k implies (#[trigger] infos[j]).path != x.path by {
            if infos[j].path == x.path {
                assert(rest[j] == infos[j]);
                assert(has_path(rest, x.path));
                lemma_first_by_path_keeps(rest, x.path);
            }
        }
    }
}

/// Placing a descriptor adds it to those present and no other.
pub proof fn lemma_place_members(infos: Seq<JavaInfoView>, info: JavaInfoView, i: int)
    requires
        0 <= i < place(infos, info).len(),
    ensures
        place(infos, info)[i] == info || infos.contains(place(infos, info)[i]),
{
    let p = rank_position(infos, info.major_version, 0);
    lemma_rank_position(infos, info.major_version, 0);
    if i < p {
        assert(place(infos, info)[i] == infos[i]);
    } else if i > p {
        assert(place(infos, info)[i] == infos[i - 1]);
    }
}

/// Ranking brings in no descriptor that was not there.
pub proof fn lemma_stable_rank_members(infos: Seq<JavaInfoView>, i: int)
    requires
        0 <= i < stable_rank(infos).len(),
    ensures
        infos.contains(stable_rank(infos)[i]),
    decreases infos.len(),
{
    let rest = infos.drop_last();
    let x = stable_rank(infos)[i];
    lemma_place_members(stable_rank(rest), infos.last(), i);
    if x == infos.last() {
        assert(infos[infos.len() - 1] == x);
    } else {
        let k = choose|k: int| 0 <= k < stable_rank(rest).len() && stable_rank(rest)[k] == x;
        lemma_stable_rank_members(rest, k);
        let j = choose|j: int| 0 <= j < rest.len() && rest[j] == x;
        assert(infos[j] == x);
    }
}

/// Every descriptor of a discovery result is the one that some report
/// yields, and its major version is the one that its version string gives.
pub proof fn lemma_discovered_members(reports: Seq<ProbeReportView>, i: int)
    requires
        0 <= i < discovered(reports).len(),
    ensures
        comes_from(reports, discovered(reports)[i]),
        discovered(reports)[i].consistent(),
{
    let all = probed(reports);
    let kept = first_by_path(all);
    let x = discovered(reports)[i];
    lemma_stable_rank_members(kept, i);
    let a = choose|a: int| 0 <= a < kept.len() && kept[a] == x;
    lemma_first_by_path_first(all, a);
    let b = choose|b: int| 0 <= b < all.len() && #[trigger] all[b] == kept[a];
    lemma_probed_members(reports, b);
}

/// Of each path that some report resolves to, a discovery result holds the
/// descriptor of the first report that does.
pub proof fn lemma_discovered_first_wins(reports: Seq<ProbeReportView>, i: int)
    requires
        0 <= i < discovered(reports).len(),
    ensures
        exists|k: int|
            0 <= k < probed(reports).len() && #[trigger] probed(reports)[k] == discovered(
                reports,
            )[i] && forall|j: int|
                0 <= j < k ==> (#[trigger] probed(reports)[j]).path != discovered(
                    reports,
                )[i].path,
{
    let all = probed(reports);
    let kept = first_by_path(all);
    lemma_stable_rank_members(kept, i);
    let a = choose|a: int| 0 <= a < kept.len() && kept[a] == discovered(reports)[i];
    lemma_first_by_path_first(all, a);
}

/// No two descriptors of a discovery result share a path.
pub proof fn lemma_discovered_distinct(reports: Seq<ProbeReportView>)
    ensures
        distinct_paths(discovered(reports)),
{
    lemma_first_by_path(probed(reports));
    lemma_stable_rank_paths(first_by_path(probed(reports)));
}

/// Of two neighbours in a discovery result, the first has at least the major
/// version of the second.
pub proof fn lemma_discovered_ranked(reports: Seq<ProbeReportView>)
    ensures
        forall|i: int|
            0 <= i && i + 1 < discovered(reports).len() ==> (#[trigger] discovered(
                reports,
            )[i]).major_version >= discovered(reports)[i + 1].major_version,
        ranked(discovered(reports)),
{
    lemma_stable_rank_ranked(first_by_path(probed(reports)));
}

/// The index at which a descriptor of major version `major` goes into a
/// ranked vector.
pub fn insertion_index(infos: &Vec<JavaInfo>, major: u32) -> (r: usize)
    ensures
        r == rank_position(info_views(infos@), major, 0),
        r <= infos@.len(),
{
    let mut i: usize = 0;
    while i < infos.len() && infos[i].major_version >= major
        invariant
            i <= infos@.len(),
            rank_position(info_views(infos@), major, 0) == rank_position(
                info_views(infos@),
                major,
                i as int,
            ),
        decreases infos@.len() - i,
    {
        proof {
            assert(info_views(infos@)[i as int] == infos@[i as int]@);
        }
        i = i + 1;
    }
    proof {
        if i < infos@.len() {
            assert(info_views(infos@)[i as int] == infos@[i as int]@);
        }
    }
    i
}

/// Orders descriptors by major version, highest first, leaving descriptors of
/// one major version in the order given.
pub fn rank_by_major(found: &Vec<JavaInfo>) -> (r: Vec<JavaInfo>)
    ensures
        info_views(r@) == stable_rank(info_views(found@)),
{
    let mut out: Vec<JavaInfo> = Vec::new();
    let mut i: usize = 0;
    proof {
        assert(info_views(found@).take(0) =~= Seq::<JavaInfoView>::empty());
        assert(info_views(out@) =~= Seq::<JavaInfoView>::empty());
    }
    while i < found.len()
        invariant
            i <= found@.len(),
            info_views(out@) == stable_rank(info_views(found@).take(i as int)),
        decreases found@.len() - i,
    {
        let info = found[i].clone();
        let at: usize = insertion_index(&out, info.major_version);
        let ghost before = info_views(out@);
        proof {
            let upto = info_views(found@).take(i + 1);
            assert(upto.drop_last() =~= info_views(found@).take(i as int));
            assert(upto.last() == info@);
        }
        out.insert(at, info);
        proof {
            assert(info_views(out@) =~= before.insert(at as int, info@));
        }
        i = i + 1;
    }
    proof {
        assert(info_views(found@).take(found@.len() as int) =~= info_views(found@));
    }
    out
}

/// Discovers the runtimes that a sequence of probe reports describes: the
/// first descriptor under each resolved path, ordered by major version,
/// highest first, ties in the order of the reports.
pub fn detect_java_installations(reports: &Vec<ProbeReport>) -> (r: Vec<JavaInfo>)
    ensures
        info_views(r@) == discovered(report_views(reports@)),
        distinct_paths(info_views(r@)),
        ranked(info_views(r@)),
        forall|i: int|
            0 <= i < r@.len() ==> {
                &&& (#[trigger] info_views(r@)[i]).consistent()
                &&& comes_from(report_views(reports@), info_views(r@)[i])
            },
{
    let found = collect_distinct(reports);
    proof {
        lemma_discovered_distinct(report_views(reports@));
        lemma_discovered_ranked(report_views(reports@));
        assert forall|i: int| 0 <= i < discovered(report_views(reports@)).len() implies {
            &&& (#[trigger] discovered(report_views(reports@))[i]).consistent()
            &&& comes_from(report_views(reports@), discovered(report_views(reports@))[i])
        } by {
            lemma_discovered_members(report_views(reports@), i);
        }
    }
    rank_by_major(&found)
}

} // verus!
