//! Selections of several filters: each filter at most once, in the order
//! the filter menus list them.

use vstd::prelude::*;

use crate::app::views::{
    countries_filter_rank, knockout_round_rank, standings_filter_rank, timeline_filter_rank,
    CountriesFilter, KnockoutRoundFilter, StandingsFilter, TimelineFilter,
};

verus! {

/// The ranks of `s` strictly increase: each value at most once, in order.
pub open spec fn countries_ordered(s: Seq<CountriesFilter>) -> bool {
    forall|a: int, b: int| 0 <= a < b < s.len() ==> countries_filter_rank(#[trigger] s[a]) < countries_filter_rank(#[trigger] s[b])
}

/// Adds `f` to an ordered selection, or takes it out when it is there; the
/// selection stays ordered.
pub fn toggle_country_filter_in(v: &mut Vec<CountriesFilter>, f: CountriesFilter)
    requires
        countries_ordered(old(v)@),
    ensures
        countries_ordered(final(v)@),
        forall|x: CountriesFilter| final(v)@.contains(x) <==> (old(v)@.contains(x) != (x == f)),
{
    let ghost before = v@;
    let mut i: usize = 0;
    while i < v.len()
        invariant
            i <= v@.len(),
            v@ == before,
            before == old(v)@,
            countries_ordered(before),
            forall|k: int| 0 <= k < i ==> v@[k] != f,
        decreases v@.len() - i,
    {
        if v[i] == f {
            v.remove(i);
            proof {
                assert(v@ =~= before.remove(i as int));
                assert forall|a: int, b: int| 0 <= a < b < v@.len() implies countries_filter_rank(#[trigger] v@[a]) < countries_filter_rank(#[trigger] v@[b]) by {
                    let aa = if a < i { a } else { a + 1 };
                    let bb = if b < i { b } else { b + 1 };
                    assert(v@[a] == before[aa]);
                    assert(v@[b] == before[bb]);
                }
                assert forall|x: CountriesFilter| v@.contains(x) <==> (before.contains(x) != (x == f)) by {
                    if v@.contains(x) {
                        let k = choose|k: int| 0 <= k < v@.len() && v@[k] == x;
                        let kk = if k < i { k } else { k + 1 };
                        assert(before[kk] == x);
                        if x == f {
                            assert(countries_filter_rank(before[kk]) == countries_filter_rank(before[i as int]));
                            if kk < i {
                                assert(countries_filter_rank(before[kk]) < countries_filter_rank(before[i as int]));
                            } else {
                                assert(countries_filter_rank(before[i as int]) < countries_filter_rank(before[kk]));
                            }
                        }
                    }
                    if before.contains(x) && x != f {
                        let k = choose|k: int| 0 <= k < before.len() && before[k] == x;
                        assert(k != i);
                        if k < i {
                            assert(v@[k] == x);
                        } else {
                            assert(v@[k - 1] == x);
                        }
                    }
                }
            }
            return;
        }
        i = i + 1;
    }
    let rf = country_rank(f);
    let mut p: usize = 0;
    while p < v.len() && country_rank(v[p]) < rf
        invariant
            p <= v@.len(),
            v@ == before,
            countries_ordered(before),
            rf == countries_filter_rank(f),
            forall|k: int| 0 <= k < p ==> countries_filter_rank(#[trigger] v@[k]) < countries_filter_rank(f),
        decreases v@.len() - p,
    {
        p = p + 1;
    }
    v.insert(p, f);
    proof {
        assert(forall|k: int| 0 <= k < before.len() ==> before[k] != f);
        assert(v@ =~= before.take(p as int).push(f) + before.skip(p as int));
        assert forall|k: int| p <= k < before.len() implies countries_filter_rank(f) < countries_filter_rank(#[trigger] before[k]) by {
            assert(countries_filter_rank(f) <= countries_filter_rank(before[p as int]));
            if countries_filter_rank(f) == countries_filter_rank(before[p as int]) {
                assert(before[p as int] == f);
            }
            if k > p {
                assert(countries_filter_rank(before[p as int]) < countries_filter_rank(before[k]));
            }
        }
        assert forall|a: int, b: int| 0 <= a < b < v@.len() implies countries_filter_rank(#[trigger] v@[a]) < countries_filter_rank(#[trigger] v@[b]) by {
            if b < p {
                assert(v@[a] == before[a] && v@[b] == before[b]);
            } else if b == p {
                assert(v@[a] == before[a]);
            } else if a == p {
                assert(v@[b] == before[b - 1]);
            } else if a < p {
                assert(v@[a] == before[a] && v@[b] == before[b - 1]);
            } else {
                assert(v@[a] == before[a - 1] && v@[b] == before[b - 1]);
            }
        }
        assert forall|x: CountriesFilter| v@.contains(x) <==> (before.contains(x) != (x == f)) by {
            if v@.contains(x) {
                let k = choose|k: int| 0 <= k < v@.len() && v@[k] == x;
                if k < p {
                    assert(before[k] == x);
                } else if k > p {
                    assert(before[k - 1] == x);
                }
            }
            if before.contains(x) {
                let k = choose|k: int| 0 <= k < before.len() && before[k] == x;
                assert(x != f);
                if k < p {
                    assert(v@[k] == x);
                } else {
                    assert(v@[k + 1] == x);
                }
            }
            if x == f {
                assert(v@[p as int] == f);
                if before.contains(f) {
                    let k = choose|k: int| 0 <= k < before.len() && before[k] == f;
                    assert(before[k] != f);
                }
            }
        }
    }
}

/// The ranks of `s` strictly increase: each value at most once, in order.
pub open spec fn groups_ordered(s: Seq<StandingsFilter>) -> bool {
    forall|a: int, b: int| 0 <= a < b < s.len() ==> standings_filter_rank(#[trigger] s[a]) < standings_filter_rank(#[trigger] s[b])
}

/// Adds `f` to an ordered selection, or takes it out when it is there; the
/// selection stays ordered.
pub fn toggle_group_filter_in(v: &mut Vec<StandingsFilter>, f: StandingsFilter)
    requires
        groups_ordered(old(v)@),
    ensures
        groups_ordered(final(v)@),
        forall|x: StandingsFilter| final(v)@.contains(x) <==> (old(v)@.contains(x) != (x == f)),
{
    let ghost before = v@;
    let mut i: usize = 0;
    while i < v.len()
        invariant
            i <= v@.len(),
            v@ == before,
            before == old(v)@,
            groups_ordered(before),
            forall|k: int| 0 <= k < i ==> v@[k] != f,
        decreases v@.len() - i,
    {
        if v[i] == f {
            v.remove(i);
            proof {
                assert(v@ =~= before.remove(i as int));
                assert forall|a: int, b: int| 0 <= a < b < v@.len() implies standings_filter_rank(#[trigger] v@[a]) < standings_filter_rank(#[trigger] v@[b]) by {
                    let aa = if a < i { a } else { a + 1 };
                    let bb = if b < i { b } else { b + 1 };
                    assert(v@[a] == before[aa]);
                    assert(v@[b] == before[bb]);
                }
                assert forall|x: StandingsFilter| v@.contains(x) <==> (before.contains(x) != (x == f)) by {
                    if v@.contains(x) {
                        let k = choose|k: int| 0 <= k < v@.len() && v@[k] == x;
                        let kk = if k < i { k } else { k + 1 };
                        assert(before[kk] == x);
                        if x == f {
                            assert(standings_filter_rank(before[kk]) == standings_filter_rank(before[i as int]));
                            if kk < i {
                                assert(standings_filter_rank(before[kk]) < standings_filter_rank(before[i as int]));
                            } else {
                                assert(standings_filter_rank(before[i as int]) < standings_filter_rank(before[kk]));
                            }
                        }
                    }
                    if before.contains(x) && x != f {
                        let k = choose|k: int| 0 <= k < before.len() && before[k] == x;
                        assert(k != i);
                        if k < i {
                            assert(v@[k] == x);
                        } else {
                            assert(v@[k - 1] == x);
                        }
                    }
                }
            }
            return;
        }
        i = i + 1;
    }
    let rf = group_rank_of(f);
    let mut p: usize = 0;
    while p < v.len() && group_rank_of(v[p]) < rf
        invariant
            p <= v@.len(),
            v@ == before,
            groups_ordered(before),
            rf == standings_filter_rank(f),
            forall|k: int| 0 <= k < p ==> standings_filter_rank(#[trigger] v@[k]) < standings_filter_rank(f),
        decreases v@.len() - p,
    {
        p = p + 1;
    }
    v.insert(p, f);
    proof {
        assert(forall|k: int| 0 <= k < before.len() ==> before[k] != f);
        assert(v@ =~= before.take(p as int).push(f) + before.skip(p as int));
        assert forall|k: int| p <= k < before.len() implies standings_filter_rank(f) < standings_filter_rank(#[trigger] before[k]) by {
            assert(standings_filter_rank(f) <= standings_filter_rank(before[p as int]));
            if standings_filter_rank(f) == standings_filter_rank(before[p as int]) {
                assert(before[p as int] == f);
            }
            if k > p {
                assert(standings_filter_rank(before[p as int]) < standings_filter_rank(before[k]));
            }
        }
        assert forall|a: int, b: int| 0 <= a < b < v@.len() implies standings_filter_rank(#[trigger] v@[a]) < standings_filter_rank(#[trigger] v@[b]) by {
            if b < p {
                assert(v@[a] == before[a] && v@[b] == before[b]);
            } else if b == p {
                assert(v@[a] == before[a]);
            } else if a == p {
                assert(v@[b] == before[b - 1]);
            } else if a < p {
                assert(v@[a] == before[a] && v@[b] == before[b - 1]);
            } else {
                assert(v@[a] == before[a - 1] && v@[b] == before[b - 1]);
            }
        }
        assert forall|x: StandingsFilter| v@.contains(x) <==> (before.contains(x) != (x == f)) by {
            if v@.contains(x) {
                let k = choose|k: int| 0 <= k < v@.len() && v@[k] == x;
                if k < p {
                    assert(before[k] == x);
                } else if k > p {
                    assert(before[k - 1] == x);
                }
            }
            if before.contains(x) {
                let k = choose|k: int| 0 <= k < before.len() && before[k] == x;
                assert(x != f);
                if k < p {
                    assert(v@[k] == x);
                } else {
                    assert(v@[k + 1] == x);
                }
            }
            if x == f {
                assert(v@[p as int] == f);
                if before.contains(f) {
                    let k = choose|k: int| 0 <= k < before.len() && before[k] == f;
                    assert(before[k] != f);
                }
            }
        }
    }
}

/// The ranks of `s` strictly increase: each value at most once, in order.
pub open spec fn rounds_ordered(s: Seq<KnockoutRoundFilter>) -> bool {
    forall|a: int, b: int| 0 <= a < b < s.len() ==> knockout_round_rank(#[trigger] s[a]) < knockout_round_rank(#[trigger] s[b])
}

/// Adds `f` to an ordered selection, or takes it out when it is there; the
/// selection stays ordered.
pub fn toggle_round_filter_in(v: &mut Vec<KnockoutRoundFilter>, f: KnockoutRoundFilter)
    requires
        rounds_ordered(old(v)@),
    ensures
        rounds_ordered(final(v)@),
        forall|x: KnockoutRoundFilter| final(v)@.contains(x) <==> (old(v)@.contains(x) != (x == f)),
{
    let ghost before = v@;
    let mut i: usize = 0;
    while i < v.len()
        invariant
            i <= v@.len(),
            v@ == before,
            before == old(v)@,
            rounds_ordered(before),
            forall|k: int| 0 <= k < i ==> v@[k] != f,
        decreases v@.len() - i,
    {
        if v[i] == f {
            v.remove(i);
            proof {
                assert(v@ =~= before.remove(i as int));
                assert forall|a: int, b: int| 0 <= a < b < v@.len() implies knockout_round_rank(#[trigger] v@[a]) < knockout_round_rank(#[trigger] v@[b]) by {
                    let aa = if a < i { a } else { a + 1 };
                    let bb = if b < i { b } else { b + 1 };
                    assert(v@[a] == before[aa]);
                    assert(v@[b] == before[bb]);
                }
                assert forall|x: KnockoutRoundFilter| v@.contains(x) <==> (before.contains(x) != (x == f)) by {
                    if v@.contains(x) {
                        let k = choose|k: int| 0 <= k < v@.len() && v@[k] == x;
                        let kk = if k < i { k } else { k + 1 };
                        assert(before[kk] == x);
                        if x == f {
                            assert(knockout_round_rank(before[kk]) == knockout_round_rank(before[i as int]));
                            if kk < i {
                                assert(knockout_round_rank(before[kk]) < knockout_round_rank(before[i as int]));
                            } else {
                                assert(knockout_round_rank(before[i as int]) < knockout_round_rank(before[kk]));
                            }
                        }
                    }
                    if before.contains(x) && x != f {
                        let k = choose|k: int| 0 <= k < before.len() && before[k] == x;
                        assert(k != i);
                        if k < i {
                            assert(v@[k] == x);
                        } else {
                            assert(v@[k - 1] == x);
                        }
                    }
                }
            }
            return;
        }
        i = i + 1;
    }
    let rf = round_rank(f);
    let mut p: usize = 0;
    while p < v.len() && round_rank(v[p]) < rf
        invariant
            p <= v@.len(),
            v@ == before,
            rounds_ordered(before),
            rf == knockout_round_rank(f),
            forall|k: int| 0 <= k < p ==> knockout_round_rank(#[trigger] v@[k]) < knockout_round_rank(f),
        decreases v@.len() - p,
    {
        p = p + 1;
    }
    v.insert(p, f);
    proof {
        assert(forall|k: int| 0 <= k < before.len() ==> before[k] != f);
        assert(v@ =~= before.take(p as int).push(f) + before.skip(p as int));
        assert forall|k: int| p <= k < before.len() implies knockout_round_rank(f) < knockout_round_rank(#[trigger] before[k]) by {
            assert(knockout_round_rank(f) <= knockout_round_rank(before[p as int]));
            if knockout_round_rank(f) == knockout_round_rank(before[p as int]) {
                assert(before[p as int] == f);
            }
            if k > p {
                assert(knockout_round_rank(before[p as int]) < knockout_round_rank(before[k]));
            }
        }
        assert forall|a: int, b: int| 0 <= a < b < v@.len() implies knockout_round_rank(#[trigger] v@[a]) < knockout_round_rank(#[trigger] v@[b]) by {
            if b < p {
                assert(v@[a] == before[a] && v@[b] == before[b]);
            } else if b == p {
                assert(v@[a] == before[a]);
            } else if a == p {
                assert(v@[b] == before[b - 1]);
            } else if a < p {
                assert(v@[a] == before[a] && v@[b] == before[b - 1]);
            } else {
                assert(v@[a] == before[a - 1] && v@[b] == before[b - 1]);
            }
        }
        assert forall|x: KnockoutRoundFilter| v@.contains(x) <==> (before.contains(x) != (x == f)) by {
            if v@.contains(x) {
                let k = choose|k: int| 0 <= k < v@.len() && v@[k] == x;
                if k < p {
                    assert(before[k] == x);
                } else if k > p {
                    assert(before[k - 1] == x);
                }
            }
            if before.contains(x) {
                let k = choose|k: int| 0 <= k < before.len() && before[k] == x;
                assert(x != f);
                if k < p {
                    assert(v@[k] == x);
                } else {
                    assert(v@[k + 1] == x);
                }
            }
            if x == f {
                assert(v@[p as int] == f);
                if before.contains(f) {
                    let k = choose|k: int| 0 <= k < before.len() && before[k] == f;
                    assert(before[k] != f);
                }
            }
        }
    }
}

/// The ranks of `s` strictly increase: each value at most once, in order.
pub open spec fn timeline_ordered(s: Seq<TimelineFilter>) -> bool {
    forall|a: int, b: int| 0 <= a < b < s.len() ==> timeline_filter_rank(#[trigger] s[a]) < timeline_filter_rank(#[trigger] s[b])
}

/// Adds `f` to an ordered selection, or takes it out when it is there; the
/// selection stays ordered.
pub fn toggle_timeline_filter_in(v: &mut Vec<TimelineFilter>, f: TimelineFilter)
    requires
        timeline_ordered(old(v)@),
    ensures
        timeline_ordered(final(v)@),
        forall|x: TimelineFilter| final(v)@.contains(x) <==> (old(v)@.contains(x) != (x == f)),
{
    let ghost before = v@;
    let mut i: usize = 0;
    while i < v.len()
        invariant
            i <= v@.len(),
            v@ == before,
            before == old(v)@,
            timeline_ordered(before),
            forall|k: int| 0 <= k < i ==> v@[k] != f,
        decreases v@.len() - i,
    {
        if v[i] == f {
            v.remove(i);
            proof {
                assert(v@ =~= before.remove(i as int));
                assert forall|a: int, b: int| 0 <= a < b < v@.len() implies timeline_filter_rank(#[trigger] v@[a]) < timeline_filter_rank(#[trigger] v@[b]) by {
                    let aa = if a < i { a } else { a + 1 };
                    let bb = if b < i { b } else { b + 1 };
                    assert(v@[a] == before[aa]);
                    assert(v@[b] == before[bb]);
                }
                assert forall|x: TimelineFilter| v@.contains(x) <==> (before.contains(x) != (x == f)) by {
                    if v@.contains(x) {
                        let k = choose|k: int| 0 <= k < v@.len() && v@[k] == x;
                        let kk = if k < i { k } else { k + 1 };
                        assert(before[kk] == x);
                        if x == f {
                            assert(timeline_filter_rank(before[kk]) == timeline_filter_rank(before[i as int]));
                            if kk < i {
                                assert(timeline_filter_rank(before[kk]) < timeline_filter_rank(before[i as int]));
                            } else {
                                assert(timeline_filter_rank(before[i as int]) < timeline_filter_rank(before[kk]));
                            }
                        }
                    }
                    if before.contains(x) && x != f {
                        let k = choose|k: int| 0 <= k < before.len() && before[k] == x;
                        assert(k != i);
                        if k < i {
                            assert(v@[k] == x);
                        } else {
                            assert(v@[k - 1] == x);
                        }
                    }
                }
            }
            return;
        }
        i = i + 1;
    }
    let rf = timeline_rank(f);
    let mut p: usize = 0;
    while p < v.len() && timeline_rank(v[p]) < rf
        invariant
            p <= v@.len(),
            v@ == before,
            timeline_ordered(before),
            rf == timeline_filter_rank(f),
            forall|k: int| 0 <= k < p ==> timeline_filter_rank(#[trigger] v@[k]) < timeline_filter_rank(f),
        decreases v@.len() - p,
    {
        p = p + 1;
    }
    v.insert(p, f);
    proof {
        assert(forall|k: int| 0 <= k < before.len() ==> before[k] != f);
        assert(v@ =~= before.take(p as int).push(f) + before.skip(p as int));
        assert forall|k: int| p <= k < before.len() implies timeline_filter_rank(f) < timeline_filter_rank(#[trigger] before[k]) by {
            assert(timeline_filter_rank(f) <= timeline_filter_rank(before[p as int]));
            if timeline_filter_rank(f) == timeline_filter_rank(before[p as int]) {
                assert(before[p as int] == f);
            }
            if k > p {
                assert(timeline_filter_rank(before[p as int]) < timeline_filter_rank(before[k]));
            }
        }
        assert forall|a: int, b: int| 0 <= a < b < v@.len() implies timeline_filter_rank(#[trigger] v@[a]) < timeline_filter_rank(#[trigger] v@[b]) by {
            if b < p {
                assert(v@[a] == before[a] && v@[b] == before[b]);
            } else if b == p {
                assert(v@[a] == before[a]);
            } else if a == p {
                assert(v@[b] == before[b - 1]);
            } else if a < p {
                assert(v@[a] == before[a] && v@[b] == before[b - 1]);
            } else {
                assert(v@[a] == before[a - 1] && v@[b] == before[b - 1]);
            }
        }
        assert forall|x: TimelineFilter| v@.contains(x) <==> (before.contains(x) != (x == f)) by {
            if v@.contains(x) {
                let k = choose|k: int| 0 <= k < v@.len() && v@[k] == x;
                if k < p {
                    assert(before[k] == x);
                } else if k > p {
                    assert(before[k - 1] == x);
                }
            }
            if before.contains(x) {
                let k = choose|k: int| 0 <= k < before.len() && before[k] == x;
                assert(x != f);
                if k < p {
                    assert(v@[k] == x);
                } else {
                    assert(v@[k + 1] == x);
                }
            }
            if x == f {
                assert(v@[p as int] == f);
                if before.contains(f) {
                    let k = choose|k: int| 0 <= k < before.len() && before[k] == f;
                    assert(before[k] != f);
                }
            }
        }
    }
}

fn country_rank(f: CountriesFilter) -> (r: usize)
    ensures
        r == countries_filter_rank(f),
{
    f.index()
}

fn group_rank_of(f: StandingsFilter) -> (r: usize)
    ensures
        r == standings_filter_rank(f),
{
    f.index()
}

fn round_rank(f: KnockoutRoundFilter) -> (r: usize)
    ensures
        r == knockout_round_rank(f),
{
    f.index()
}

fn timeline_rank(f: TimelineFilter) -> (r: usize)
    ensures
        r == timeline_filter_rank(f),
{
    match f {
        TimelineFilter::Goals => 0,
        TimelineFilter::RedCards => 1,
        TimelineFilter::YellowCards => 2,
        TimelineFilter::Substitutions => 3,
        TimelineFilter::All => 4,
    }
}

} // verus!
