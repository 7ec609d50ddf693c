//! Collecting per-game results and assembling the final report.
//!
//! Each game is looked up independently: resolving its name against the
//! catalog either yields a catalog identifier (and then a viewer count) or
//! reports the name as not found, which drops that game and no other. The
//! collected reports are joined with viewer counts, sorted descending by
//! viewers, and filtered for display.

use vstd::prelude::*;

verus! {

/// What resolving one game name against the catalog yields: the display
/// name, the catalog identifier, and the external catalog identifier.
pub struct CatalogRecord {
    pub name: String,
    pub catalog_id: String,
    pub external_catalog_id: String,
}

/// One row of the final report: a game, its catalog identifier, and the
/// snapshot sum of viewers over its live broadcasts.
pub struct GameReport {
    pub name: String,
    pub catalog_id: String,
    pub viewers: u64,
}

/// The outcome of one game's independent lookup: either a finished report,
/// or the name that the catalog did not recognize.
pub enum GameOutcome {
    Resolved(GameReport),
    NotFound(String),
}

/// An exact copy of a report.
pub fn copy_report(report: &GameReport) -> (out: GameReport)
    ensures
        out == *report,
{
    GameReport {
        name: report.name.clone(),
        catalog_id: report.catalog_id.clone(),
        viewers: report.viewers,
    }
}

/// The reports among a succession of per-game outcomes, in order: exactly
/// the games that resolved, with the unresolved names dropped.
pub open spec fn spec_collect(outcomes: Seq<GameOutcome>) -> Seq<GameReport> {
    outcomes.filter_map(
        |o: GameOutcome|
            match o {
                GameOutcome::Resolved(r) => Some(r),
                GameOutcome::NotFound(_) => None,
            },
    )
}

/// Gather the reports of the games that resolved. A name whose resolution
/// failed contributes nothing and disturbs nothing: every other outcome's
/// report is kept unchanged, in order.
pub fn collect_reports(outcomes: Vec<GameOutcome>) -> (reports: Vec<GameReport>)
    ensures
        reports@ == spec_collect(outcomes@),
{
    let ghost full = outcomes@;
    let mut outcomes = outcomes;
    let mut reports: Vec<GameReport> = Vec::new();
    let mut i: usize = 0;
    proof {
        assert(full.take(0).filter_map(
            |o: GameOutcome|
                match o {
                    GameOutcome::Resolved(r) => Some(r),
                    GameOutcome::NotFound(_) => None,
                },
        ) =~= Seq::<GameReport>::empty());
    }
    while i < outcomes.len()
        invariant
            full == outcomes@,
            0 <= i <= outcomes@.len(),
            reports@ == spec_collect(full.take(i as int)),
        decreases outcomes@.len() - i,
    {
        proof {
            broadcast use vstd::prelude::Seq::lemma_filter_map_take_succ;
        }
        match &outcomes[i] {
            GameOutcome::Resolved(r) => {
                let ghost pre = reports@;
                let copied = copy_report(r);
                reports.push(copied);
                proof {
                    assert(reports@ =~= pre + seq![full[i as int]->Resolved_0]);
                    assert(reports@ =~= spec_collect(full.take(i as int + 1)));
                }
            },
            GameOutcome::NotFound(_) => {
                proof {
                    assert(reports@ =~= spec_collect(full.take(i as int + 1)));
                }
            },
        }
        i = i + 1;
    }
    proof {
        assert(full.take(full.len() as int) =~= full);
    }
    reports
}

/// The collected reports are exactly the resolved subset: a report stands
/// in the collection if and only if some outcome resolved to it, so one
/// game's failure cannot add, remove, or alter any other game's report.
pub proof fn lemma_collect_membership(outcomes: Seq<GameOutcome>)
    ensures
        forall|r: GameReport| #[trigger] spec_collect(outcomes).contains(r)
            <==> exists|j: int|
                0 <= j < outcomes.len() && outcomes[j] == GameOutcome::Resolved(r),
    decreases outcomes.len(),
{
    broadcast use vstd::seq_lib::group_seq_properties;

    if outcomes.len() == 0 {
        assert(spec_collect(outcomes).len() == 0);
    } else {
        let rest = outcomes.drop_last();
        lemma_collect_membership(rest);
        assert forall|r: GameReport| #[trigger] spec_collect(outcomes).contains(r)
            implies exists|j: int|
                0 <= j < outcomes.len() && outcomes[j] == GameOutcome::Resolved(r) by {
            if outcomes.last() == GameOutcome::Resolved(r) {
                assert(outcomes[outcomes.len() - 1] == GameOutcome::Resolved(r));
            } else {
                assert(spec_collect(rest).contains(r)) by {
                    if outcomes.last() is Resolved {
                        let idx = choose|idx: int|
                            0 <= idx < spec_collect(outcomes).len()
                                && spec_collect(outcomes)[idx] == r;
                        assert(spec_collect(outcomes) == spec_collect(rest)
                            + seq![outcomes.last()->Resolved_0]);
                        assert(idx < spec_collect(rest).len());
                        assert(spec_collect(rest)[idx] == r);
                    }
                }
                let j = choose|j: int|
                    0 <= j < rest.len() && rest[j] == GameOutcome::Resolved(r);
                assert(outcomes[j] == GameOutcome::Resolved(r));
            }
        }
        assert forall|r: GameReport|
            (exists|j: int|
                0 <= j < outcomes.len() && outcomes[j] == GameOutcome::Resolved(r))
            implies #[trigger] spec_collect(outcomes).contains(r) by {
            let j = choose|j: int|
                0 <= j < outcomes.len() && outcomes[j] == GameOutcome::Resolved(r);
            if j == outcomes.len() - 1 {
                assert(spec_collect(outcomes) == spec_collect(rest) + seq![r]);
                assert(spec_collect(outcomes)[spec_collect(outcomes).len() - 1] == r);
            } else {
                assert(rest[j] == GameOutcome::Resolved(r));
                assert(spec_collect(rest).contains(r));
                let idx = choose|idx: int|
                    0 <= idx < spec_collect(rest).len() && spec_collect(rest)[idx] == r;
                assert(spec_collect(outcomes)[idx] == r);
            }
        }
    }
}

/// One game's failure is invisible to every other game: when two outcome
/// successions differ at one position only, every report resolved at any
/// other position stands in both collections.
pub proof fn lemma_collect_independent(a: Seq<GameOutcome>, b: Seq<GameOutcome>, k: int)
    requires
        a.len() == b.len(),
        0 <= k < a.len(),
        forall|j: int| 0 <= j < a.len() && j != k ==> a[j] == b[j],
    ensures
        forall|j: int, r: GameReport| #![trigger a[j], spec_collect(a).contains(r)]
            0 <= j < a.len() && j != k && a[j] == GameOutcome::Resolved(r)
                ==> spec_collect(a).contains(r) && spec_collect(b).contains(r),
{
    lemma_collect_membership(a);
    lemma_collect_membership(b);
}

/// The views held against one key in an association of catalog identifiers
/// to viewer counts: the first entry with that key, or zero when the key is
/// absent. A game whose count never arrived reports zero viewers.
pub open spec fn spec_lookup(counts: Seq<(Seq<char>, u64)>, key: Seq<char>) -> u64
    decreases counts.len(),
{
    if counts.len() == 0 {
        0
    } else if counts[0].0 == key {
        counts[0].1
    } else {
        spec_lookup(counts.skip(1), key)
    }
}

/// The association list a vector of pairs holds, as mathematical values.
pub open spec fn counts_view(counts: Seq<(String, u64)>) -> Seq<(Seq<char>, u64)> {
    counts.map_values(|p: (String, u64)| (p.0@, p.1))
}

/// The viewer count recorded against one catalog identifier, or zero when
/// none is recorded.
pub fn lookup_count(counts: &Vec<(String, u64)>, key: &String) -> (viewers: u64)
    ensures
        viewers == spec_lookup(counts_view(counts@), key@),
{
    let ghost full = counts_view(counts@);
    let mut i: usize = 0;
    proof {
        assert(full.skip(0) =~= full);
    }
    while i < counts.len()
        invariant
            full == counts_view(counts@),
            0 <= i <= counts@.len(),
            spec_lookup(full, key@) == spec_lookup(full.skip(i as int), key@),
        decreases counts@.len() - i,
    {
        proof {
            assert(full.skip(i as int)[0] == full[i as int]);
            assert(full.skip(i as int).skip(1) =~= full.skip(i as int + 1));
        }
        if counts[i].0.eq(key) {
            return counts[i].1;
        }
        i = i + 1;
    }
    proof {
        assert(full.skip(counts@.len() as int) =~= Seq::<(Seq<char>, u64)>::empty());
    }
    0
}

/// Join catalog records with the collected viewer counts: one report per
/// record, in order, carrying the count recorded against its catalog
/// identifier, or zero when none was.
pub fn assemble(records: &Vec<CatalogRecord>, counts: &Vec<(String, u64)>) -> (reports: Vec<
    GameReport,
>)
    ensures
        reports@.len() == records@.len(),
        forall|i: int|
            0 <= i < records@.len() ==> (#[trigger] reports@[i]).name == records@[i].name
                && reports@[i].catalog_id == records@[i].catalog_id
                && reports@[i].viewers == spec_lookup(
                counts_view(counts@),
                records@[i].catalog_id@,
            ),
{
    let mut reports: Vec<GameReport> = Vec::new();
    let mut i: usize = 0;
    while i < records.len()
        invariant
            0 <= i <= records@.len(),
            reports@.len() == i,
            forall|j: int|
                0 <= j < i ==> (#[trigger] reports@[j]).name == records@[j].name
                    && reports@[j].catalog_id == records@[j].catalog_id
                    && reports@[j].viewers == spec_lookup(
                    counts_view(counts@),
                    records@[j].catalog_id@,
                ),
        decreases records@.len() - i,
    {
        let viewers = lookup_count(counts, &records[i].catalog_id);
        let report = GameReport {
            name: records[i].name.clone(),
            catalog_id: records[i].catalog_id.clone(),
            viewers,
        };
        reports.push(report);
        i = i + 1;
    }
    reports
}

/// Non-increasing by viewer count: every pair of positions is ordered, so
/// equal counts stand adjacent before any lesser count.
pub open spec fn sorted_desc(s: Seq<GameReport>) -> bool {
    forall|i: int, j: int| 0 <= i <= j < s.len() ==> s[i].viewers >= s[j].viewers
}

/// Sort the report descending by viewer count. The result holds exactly the
/// given reports; ties stay adjacent but their relative order is not
/// specified.
pub fn sort_reports(reports: &Vec<GameReport>) -> (sorted: Vec<GameReport>)
    ensures
        sorted_desc(sorted@),
        sorted@.to_multiset() == reports@.to_multiset(),
{
    let mut sorted: Vec<GameReport> = Vec::new();
    let mut i: usize = 0;
    proof {
        broadcast use vstd::prelude::Seq::to_multiset_ensures;
        assert(reports@.take(0) =~= Seq::<GameReport>::empty());
        assert(sorted@ =~= Seq::<GameReport>::empty());
    }
    while i < reports.len()
        invariant
            0 <= i <= reports@.len(),
            sorted_desc(sorted@),
            sorted@.to_multiset() == reports@.take(i as int).to_multiset(),
        decreases reports@.len() - i,
    {
        let r = copy_report(&reports[i]);
        let mut j: usize = 0;
        while j < sorted.len() && sorted[j].viewers >= r.viewers
            invariant
                0 <= j <= sorted@.len(),
                forall|k: int| 0 <= k < j ==> sorted@[k].viewers >= r.viewers,
            decreases sorted@.len() - j,
        {
            j = j + 1;
        }
        let ghost pre = sorted@;
        sorted.insert(j, r);
        proof {
            broadcast use vstd::prelude::Seq::to_multiset_ensures;
            broadcast use vstd::seq_lib::to_multiset_insert;
            broadcast use vstd::prelude::Seq::lemma_take_succ_push;
            broadcast use vstd::seq_lib::to_multiset_build;
            pre.insert_ensures(j as int, r);
            assert(sorted_desc(sorted@)) by {
                assert(forall|k: int| 0 <= k < j ==> sorted@[k] == pre[k]);
                assert(forall|k: int|
                    j < k < sorted@.len() ==> sorted@[k] == pre[k - 1]);
                assert(sorted@[j as int] == r);
                if j < pre.len() {
                    assert(pre[j as int].viewers < r.viewers);
                }
            }
            assert(reports@.take(i as int + 1) =~= reports@.take(i as int).push(
                reports@[i as int]));
            assert(sorted@.to_multiset() == reports@.take(i as int + 1).to_multiset());
        }
        i = i + 1;
    }
    proof {
        assert(reports@.take(reports@.len() as int) =~= reports@);
    }
    sorted
}

/// Two assemblies of the same per-game outcomes hold the same reports: with
/// the underlying data unchanged, running the resolution and aggregation
/// again changes nothing but, at most, the relative order of tied rows.
pub proof fn lemma_report_set_stable(
    outcomes: Seq<GameOutcome>,
    first: Seq<GameReport>,
    second: Seq<GameReport>,
)
    requires
        first.to_multiset() == spec_collect(outcomes).to_multiset(),
        second.to_multiset() == spec_collect(outcomes).to_multiset(),
    ensures
        first.to_multiset() == second.to_multiset(),
        forall|r: GameReport| first.contains(r) <==> second.contains(r),
{
    assert forall|r: GameReport| first.contains(r) <==> second.contains(r) by {
        vstd::seq_lib::to_multiset_contains(first, r);
        vstd::seq_lib::to_multiset_contains(second, r);
    }
}

/// The rows the printed report shows, in order: every report when verbose,
/// otherwise only those with at least one viewer.
pub fn visible_reports(reports: &Vec<GameReport>, verbose: bool) -> (out: Vec<GameReport>)
    ensures
        out@ == reports@.filter(|g: GameReport| verbose || g.viewers > 0),
{
    let ghost full = reports@;
    let mut out: Vec<GameReport> = Vec::new();
    let mut i: usize = 0;
    proof {
        assert(full.take(0) =~= Seq::<GameReport>::empty());
        assert(full.take(0).filter(|g: GameReport| verbose || g.viewers > 0)
            =~= Seq::<GameReport>::empty());
    }
    while i < reports.len()
        invariant
            full == reports@,
            0 <= i <= reports@.len(),
            out@ == full.take(i as int).filter(|g: GameReport| verbose || g.viewers > 0),
        decreases reports@.len() - i,
    {
        let ghost pre = out@;
        if verbose || reports[i].viewers > 0 {
            let r = copy_report(&reports[i]);
            out.push(r);
        }
        proof {
            broadcast use vstd::prelude::Seq::lemma_take_succ_push;
            broadcast use vstd::prelude::Seq::lemma_filter_push;
            assert(full.take(i as int + 1) =~= full.take(i as int).push(full[i as int]));
            assert(full.take(i as int + 1).filter(|g: GameReport| verbose || g.viewers > 0)
                == full.take(i as int).push(full[i as int]).filter(
                |g: GameReport| verbose || g.viewers > 0,
            ));
            assert(out@ =~= full.take(i as int + 1).filter(
                |g: GameReport| verbose || g.viewers > 0,
            ));
        }
        i = i + 1;
    }
    proof {
        assert(full.take(reports@.len() as int) =~= full);
    }
    out
}

/// The set of names to persist as having no viewers: the names already on
/// record, joined with the name of every report whose snapshot count is
/// zero. No other name enters, and no name leaves.
pub fn zero_viewer_names(reports: &Vec<GameReport>, existing: &Vec<String>) -> (out: Vec<
    String,
>)
    ensures
        forall|x: Seq<char>|
            #[trigger] out.deep_view().contains(x) <==> (existing.deep_view().contains(x)
                || exists|i: int|
                    0 <= i < reports@.len() && (#[trigger] reports@[i]).viewers == 0
                        && reports@[i].name@ == x),
        (forall|p: int, q: int|
            0 <= p < q < existing.deep_view().len() ==> existing.deep_view()[p]
                != existing.deep_view()[q]) ==> (forall|p: int, q: int|
            0 <= p < q < out.deep_view().len() ==> out.deep_view()[p] != out.deep_view()[q]),
{
    let mut out: Vec<String> = Vec::new();
    let mut i: usize = 0;
    while i < existing.len()
        invariant
            0 <= i <= existing@.len(),
            out.deep_view() =~= existing.deep_view().take(i as int),
        decreases existing@.len() - i,
    {
        let ghost pre = out.deep_view();
        let name = existing[i].clone();
        out.push(name);
        proof {
            assert(out.deep_view() =~= pre.push(existing.deep_view()[i as int]));
            broadcast use vstd::prelude::Seq::lemma_take_succ_push;
            assert(out.deep_view() =~= existing.deep_view().take(i as int + 1));
        }
        i = i + 1;
    }
    proof {
        assert(existing.deep_view().take(existing@.len() as int) =~= existing.deep_view());
    }
    let mut k: usize = 0;
    while k < reports.len()
        invariant
            0 <= k <= reports@.len(),
            forall|x: Seq<char>|
                #[trigger] out.deep_view().contains(x) <==> (existing.deep_view().contains(
                    x,
                ) || exists|i: int|
                    0 <= i < k && (#[trigger] reports@[i]).viewers == 0
                        && reports@[i].name@ == x),
            (forall|p: int, q: int|
                0 <= p < q < existing.deep_view().len() ==> existing.deep_view()[p]
                    != existing.deep_view()[q]) ==> (forall|p: int, q: int|
                0 <= p < q < out.deep_view().len() ==> out.deep_view()[p]
                    != out.deep_view()[q]),
        decreases reports@.len() - k,
    {
        let ghost pre = out.deep_view();
        let mut pushed = false;
        if reports[k].viewers == 0 {
            if !crate::game_list::contains_name(&out, &reports[k].name) {
                let name = reports[k].name.clone();
                out.push(name);
                pushed = true;
            }
        }
        proof {
            broadcast use vstd::seq_lib::group_seq_properties;
            if pushed {
                assert(out.deep_view() =~= pre.push(reports@[k as int].name@));
                assert(forall|j: int|
                    0 <= j < pre.len() ==> pre[j] != reports@[k as int].name@);
            }
            assert forall|x: Seq<char>|
                #[trigger] out.deep_view().contains(x) <==> (existing.deep_view().contains(
                    x,
                ) || exists|i: int|
                    0 <= i < k + 1 && (#[trigger] reports@[i]).viewers == 0
                        && reports@[i].name@ == x) by {
                if pushed {
                    assert(out.deep_view().contains(x) == pre.push(
                        reports@[k as int].name@).contains(x));
                }
                if reports@[k as int].viewers == 0 && reports@[k as int].name@ == x {
                    if !out.deep_view().contains(x) {
                        assert(false);
                    }
                }
            }
        }
        k = k + 1;
    }
    out
}

} // verus!
