//! Grouping media-part rows into versions: one version per resolution,
//! with the subtitle languages found for it.
use vstd::prelude::*;

use crate::models::MediaVersion;
use crate::seqs::{dedup, lemma_dedup_contains, lemma_dedup_push};
use crate::text::opt_view;

verus! {

/// A media-part row as the grouping reads it: (resolution, subtitle language).
pub type VersionRow = (Option<Seq<char>>, Option<Seq<char>>);

/// Versions as the grouping sees them: (resolution, subtitle languages).
pub type VersionsView = Seq<(Seq<char>, Seq<Seq<char>>)>;

/// The view of a list of versions.
pub open spec fn versions_view(v: Seq<MediaVersion>) -> VersionsView {
    v.map_values(|m: MediaVersion| (m.video_resolution@, m.subtitles@.map_values(|s: String| s@)))
}

/// Position of the version with this resolution, or -1.
pub open spec fn version_index(vs: VersionsView, r: Seq<char>) -> int
    decreases vs.len(),
{
    if vs.len() == 0 {
        -1
    } else {
        let i = version_index(vs.drop_last(), r);
        if i >= 0 {
            i
        } else if vs.last().0 == r {
            vs.len() - 1
        } else {
            -1
        }
    }
}

/// One row added to the versions: a row without resolution adds nothing; a
/// new resolution starts a version with the row's subtitle; a known one
/// gains the row's subtitle unless it has it already.
pub open spec fn add_row(vs: VersionsView, row: VersionRow) -> VersionsView {
    match row.0 {
        None => vs,
        Some(r) => {
            let j = version_index(vs, r);
            if j >= 0 {
                match row.1 {
                    Some(l) => if vs[j].1.contains(l) {
                        vs
                    } else {
                        vs.update(j, (r, vs[j].1.push(l)))
                    },
                    None => vs,
                }
            } else {
                vs.push(
                    (
                        r,
                        match row.1 {
                            Some(l) => seq![l],
                            None => Seq::<Seq<char>>::empty(),
                        },
                    ),
                )
            }
        },
    }
}

/// The versions that rows give, read in order.
pub open spec fn versions_of(rows: Seq<VersionRow>) -> VersionsView
    decreases rows.len(),
{
    if rows.len() == 0 {
        Seq::empty()
    } else {
        add_row(versions_of(rows.drop_last()), rows.last())
    }
}

/// The resolutions of rows, in order, where a row has one.
pub open spec fn row_resolutions(rows: Seq<VersionRow>) -> Seq<Seq<char>>
    decreases rows.len(),
{
    if rows.len() == 0 {
        Seq::empty()
    } else {
        let rest = row_resolutions(rows.drop_last());
        match rows.last().0 {
            Some(r) => rest.push(r),
            None => rest,
        }
    }
}

/// The subtitle languages of the rows with resolution `r`, in order.
pub open spec fn row_subtitles(rows: Seq<VersionRow>, r: Seq<char>) -> Seq<Seq<char>>
    decreases rows.len(),
{
    if rows.len() == 0 {
        Seq::empty()
    } else {
        let rest = row_subtitles(rows.drop_last(), r);
        if rows.last().0 == Some(r) && rows.last().1 is Some {
            rest.push(rows.last().1->0)
        } else {
            rest
        }
    }
}

proof fn lemma_version_index(vs: VersionsView, r: Seq<char>)
    ensures
        version_index(vs, r) >= 0 ==> version_index(vs, r) < vs.len() && vs[version_index(
            vs,
            r,
        )].0 == r,
        version_index(vs, r) < 0 ==> forall|j: int| 0 <= j < vs.len() ==> vs[j].0 != r,
        version_index(vs, r) >= -1,
    decreases vs.len(),
{
    if vs.len() > 0 {
        lemma_version_index(vs.drop_last(), r);
        assert forall|j: int| 0 <= j < vs.len() - 1 implies vs[j] == vs.drop_last()[j] by {}
    }
}

proof fn lemma_subtitles_need_resolution(rows: Seq<VersionRow>, r: Seq<char>)
    ensures
        row_subtitles(rows, r).len() > 0 ==> row_resolutions(rows).contains(r),
    decreases rows.len(),
{
    if rows.len() > 0 {
        lemma_subtitles_need_resolution(rows.drop_last(), r);
        let rest = row_resolutions(rows.drop_last());
        if rows.last().0 == Some(r) {
            assert(rest.push(r)[rest.len() as int] == r);
        } else if row_subtitles(rows, r).len() > 0 {
            let i = choose|i: int| 0 <= i < rest.len() && rest[i] == r;
            if rows.last().0 is Some {
                assert(rest.push(rows.last().0->0)[i] == r);
            }
        }
    }
}

/// The versions that rows give have, in order of first appearance, each
/// resolution of the rows once; each version has, in order of first
/// appearance, each subtitle language of the rows with its resolution once.
pub proof fn law_versions_of(rows: Seq<VersionRow>)
    ensures
        versions_of(rows).map_values(|v: (Seq<char>, Seq<Seq<char>>)| v.0) == dedup(
            row_resolutions(rows),
        ),
        forall|j: int|
            0 <= j < versions_of(rows).len() ==> #[trigger] versions_of(rows)[j].1 == dedup(
                row_subtitles(rows, versions_of(rows)[j].0),
            ),
    decreases rows.len(),
{
    if rows.len() > 0 {
        let prev = rows.drop_last();
        law_versions_of(prev);
        let vs = versions_of(prev);
        let row = rows.last();
        let keys = vs.map_values(|v: (Seq<char>, Seq<Seq<char>>)| v.0);
        let res_prev = row_resolutions(prev);
        assert(keys == dedup(res_prev));
        match row.0 {
            None => {
                assert(row_resolutions(rows) == res_prev);
                assert forall|r: Seq<char>| row_subtitles(rows, r) == row_subtitles(prev, r) by {}
            },
            Some(r) => {
                lemma_version_index(vs, r);
                lemma_dedup_push(res_prev, r);
                lemma_dedup_contains(res_prev, r);
                assert(row_resolutions(rows) == res_prev.push(r));
                let j = version_index(vs, r);
                if j >= 0 {
                    assert(keys[j] == r);
                    assert(dedup(res_prev).contains(r));
                    let new_vs = versions_of(rows);
                    assert(new_vs.map_values(|v: (Seq<char>, Seq<Seq<char>>)| v.0) =~= keys);
                    assert forall|k: int| 0 <= k < new_vs.len() implies #[trigger] new_vs[k].1
                        == dedup(row_subtitles(rows, new_vs[k].0)) by {
                        assert(new_vs[k].0 == vs[k].0);
                        if k == j {
                            match row.1 {
                                Some(l) => {
                                    lemma_dedup_push(row_subtitles(prev, r), l);
                                    lemma_dedup_contains(row_subtitles(prev, r), l);
                                    assert(row_subtitles(rows, r) == row_subtitles(prev, r).push(l));
                                },
                                None => {},
                            }
                        } else {
                            assert(vs[k].0 != r) by {
                                lemma_dedup_no_dup_keys(keys, res_prev, j, k);
                            }
                            assert(row_subtitles(rows, vs[k].0) == row_subtitles(prev, vs[k].0));
                        }
                    }
                } else {
                    assert(!keys.contains(r)) by {
                        if keys.contains(r) {
                            let k = choose|k: int| 0 <= k < keys.len() && keys[k] == r;
                            assert(vs[k].0 == r);
                        }
                    }
                    assert(!res_prev.contains(r));
                    lemma_subtitles_need_resolution(prev, r);
                    let new_vs = versions_of(rows);
                    assert(new_vs == vs.push(
                        (
                            r,
                            match row.1 {
                                Some(l) => seq![l],
                                None => Seq::<Seq<char>>::empty(),
                            },
                        ),
                    ));
                    assert(new_vs.map_values(|v: (Seq<char>, Seq<Seq<char>>)| v.0) =~= keys.push(
                        r,
                    ));
                    assert forall|k: int| 0 <= k < new_vs.len() implies #[trigger] new_vs[k].1
                        == dedup(row_subtitles(rows, new_vs[k].0)) by {
                        if k == vs.len() {
                            assert(row_subtitles(prev, r).len() == 0);
                            match row.1 {
                                Some(l) => {
                                    assert(row_subtitles(rows, r) =~= seq![l]);
                                    assert(seq![l].drop_last() =~= Seq::<Seq<char>>::empty());
                                    assert(dedup(Seq::<Seq<char>>::empty()) =~= Seq::<Seq<char>>::empty());
                                    assert(!Seq::<Seq<char>>::empty().contains(l));
                                    assert(dedup(seq![l]) == dedup(seq![l].drop_last()).push(l));
                                    assert(dedup(seq![l]) =~= seq![l]);
                                },
                                None => {
                                    assert(row_subtitles(rows, r) =~= Seq::<Seq<char>>::empty());
                                },
                            }
                        } else {
                            assert(new_vs[k] == vs[k]);
                            assert(vs[k].0 != r);
                            assert(row_subtitles(rows, vs[k].0) == row_subtitles(prev, vs[k].0));
                        }
                    }
                }
            },
        }
    }
}

proof fn lemma_dedup_no_dup_keys(
    keys: Seq<Seq<char>>,
    res: Seq<Seq<char>>,
    j: int,
    k: int,
)
    requires
        keys == dedup(res),
        0 <= j < keys.len(),
        0 <= k < keys.len(),
        j != k,
    ensures
        keys[j] != keys[k],
{
    crate::seqs::lemma_dedup_no_duplicates(res);
}

/// Position of the first version with this resolution, or the number of
/// versions when there is none.
fn find_version(versions: &Vec<MediaVersion>, r: &String) -> (j: usize)
    ensures
        j <= versions@.len(),
        forall|k: int| 0 <= k < j ==> versions@[k].video_resolution@ != r@,
        j < versions@.len() ==> versions@[j as int].video_resolution@ == r@,
{
    let mut j: usize = 0;
    while j < versions.len()
        invariant
            j <= versions@.len(),
            forall|k: int| 0 <= k < j ==> versions@[k].video_resolution@ != r@,
        decreases versions.len() - j,
    {
        if versions[j].video_resolution == *r {
            return j;
        }
        j = j + 1;
    }
    j
}

/// Whether the list holds a string equal to `x`.
pub fn contains_string(v: &Vec<String>, x: &String) -> (b: bool)
    ensures
        b == v@.map_values(|s: String| s@).contains(x@),
{
    let ghost views = v@.map_values(|s: String| s@);
    let mut m: usize = 0;
    while m < v.len()
        invariant
            m <= v@.len(),
            views == v@.map_values(|s: String| s@),
            forall|k: int| 0 <= k < m ==> views[k] != x@,
        decreases v.len() - m,
    {
        if v[m] == *x {
            assert(views[m as int] == x@);
            return true;
        }
        m = m + 1;
    }
    false
}

/// Adds one media-part row to the versions.
pub fn add_version_row(
    versions: &mut Vec<MediaVersion>,
    resolution: &Option<String>,
    subtitle: &Option<String>,
)
    ensures
        versions_view(final(versions)@) == add_row(
            versions_view(old(versions)@),
            (opt_view(*resolution), opt_view(*subtitle)),
        ),
{
    let ghost vs0 = versions_view(versions@);
    match resolution {
        None => {},
        Some(r) => {
            let j = find_version(versions, r);
            if j < versions.len() {
                assert(version_index(vs0, r@) == j) by {
                    lemma_version_index_first(vs0, r@, j as int);
                }
                match subtitle {
                    Some(l) => {
                        let ghost subs = vs0[j as int].1;
                        assert(subs == versions@[j as int].subtitles@.map_values(|s: String| s@));
                        if !contains_string(&versions[j].subtitles, l) {
                            let ghost before = versions@;
                            versions[j].subtitles.push(l.clone());
                            assert(versions@.len() == before.len());
                            assert(versions@[j as int].video_resolution == before[j as int].video_resolution);
                            assert(versions@[j as int].subtitles@ == before[j as int].subtitles@.push(*l));
                            assert(forall|k: int| 0 <= k < before.len() && k != j ==> versions@[k] == before[k]);
                            assert(versions@[j as int].subtitles@.map_values(|s: String| s@) =~= subs.push(l@));
                            assert(versions_view(versions@) =~= vs0.update(
                                j as int,
                                (r@, subs.push(l@)),
                            ));
                        }
                    },
                    None => {},
                }
            } else {
                proof {
                    lemma_version_index(vs0, r@);
                    if version_index(vs0, r@) >= 0 {
                        let i = version_index(vs0, r@);
                        assert(versions@[i].video_resolution@ == r@);
                    }
                }
                let subs: Vec<String> = match subtitle {
                    Some(l) => {
                        let mut v: Vec<String> = Vec::new();
                        v.push(l.clone());
                        v
                    },
                    None => Vec::new(),
                };
                let ghost sub_views = match opt_view(*subtitle) {
                    Some(l) => seq![l],
                    None => Seq::<Seq<char>>::empty(),
                };
                assert(subs@.map_values(|s: String| s@) =~= sub_views);
                versions.push(MediaVersion { video_resolution: r.clone(), subtitles: subs });
                assert(versions_view(versions@) =~= vs0.push((r@, sub_views)));
            }
        },
    }
}

proof fn lemma_version_index_first(vs: VersionsView, r: Seq<char>, j: int)
    requires
        0 <= j < vs.len(),
        vs[j].0 == r,
        forall|k: int| 0 <= k < j ==> vs[k].0 != r,
    ensures
        version_index(vs, r) == j,
    decreases vs.len(),
{
    if j < vs.len() - 1 {
        lemma_version_index_first(vs.drop_last(), r, j);
    } else {
        lemma_version_index(vs.drop_last(), r);
        if version_index(vs.drop_last(), r) >= 0 {
            let i = version_index(vs.drop_last(), r);
            assert(vs[i].0 == r);
        }
    }
}

} // verus!
