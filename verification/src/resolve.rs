//! The package selection resolver: an ordered list of include/exclude rules
//! folded left-to-right over the catalog, starting from the empty set.
//!
//! Regex rules always match against the full catalog, never against the
//! running working set; excludes remove from the running working set only.
//! Rule order is therefore significant.

use vstd::prelude::*;
use crate::catalog::NameIndex;
use crate::config::{OperationEnum, PackageRuleEnum};
use crate::errors::SyncError;
use crate::idset::IdSet;
use crate::pattern::{pattern_matches, pattern_ok, CompiledPattern};

verus! {

/// The mathematical content of one filter rule.
pub ghost enum RuleModel {
    RegexRule { adds: bool, pattern: Seq<char> },
    SingleRule { adds: bool, id: Seq<char> },
}

impl View for PackageRuleEnum {
    type V = RuleModel;

    open spec fn view(&self) -> RuleModel {
        match self {
            PackageRuleEnum::Regex(rr) => RuleModel::RegexRule {
                adds: rr.operation is Include,
                pattern: rr.pattern@,
            },
            PackageRuleEnum::Single(sr) => RuleModel::SingleRule {
                adds: sr.operation is Include,
                id: sr.id@,
            },
        }
    }
}

/// The mathematical content of a rule list.
pub open spec fn rule_models(rules: Seq<PackageRuleEnum>) -> Seq<RuleModel> {
    rules.map_values(|r: PackageRuleEnum| r@)
}

/// Why resolution fails.
pub ghost enum ResolveErr {
    BadPattern { pattern: Seq<char> },
    UnknownId { id: Seq<char> },
}

/// The catalog identifiers a pattern matches.
pub open spec fn matched_set(catalog: Set<Seq<char>>, p: Seq<char>) -> Set<Seq<char>> {
    Set::new(|x: Seq<char>| catalog.contains(x) && pattern_matches(p, x))
}

/// One step of the fold: what a single rule does to the working set.
pub open spec fn apply_rule(
    catalog: Set<Seq<char>>,
    ws: Set<Seq<char>>,
    rule: RuleModel,
) -> Result<Set<Seq<char>>, ResolveErr> {
    match rule {
        RuleModel::RegexRule { adds, pattern } => if !pattern_ok(pattern) {
            Err(ResolveErr::BadPattern { pattern })
        } else if adds {
            Ok(ws.union(matched_set(catalog, pattern)))
        } else {
            Ok(ws.difference(matched_set(catalog, pattern)))
        },
        RuleModel::SingleRule { adds, id } => if !catalog.contains(id) {
            Err(ResolveErr::UnknownId { id })
        } else if adds {
            Ok(ws.insert(id))
        } else {
            Ok(ws.remove(id))
        },
    }
}

/// The strict left fold of the remaining rules over a working set.
pub open spec fn resolve_from(
    catalog: Set<Seq<char>>,
    rules: Seq<RuleModel>,
    ws: Set<Seq<char>>,
) -> Result<Set<Seq<char>>, ResolveErr>
    decreases rules.len(),
{
    if rules.len() == 0 {
        Ok(ws)
    } else {
        match apply_rule(catalog, ws, rules[0]) {
            Ok(ws2) => resolve_from(catalog, rules.skip(1), ws2),
            Err(e) => Err(e),
        }
    }
}

/// What resolving a rule list against a catalog yields: the fold of all
/// rules, starting from the empty working set.
pub open spec fn resolve_spec(
    catalog: Set<Seq<char>>,
    rules: Seq<RuleModel>,
) -> Result<Set<Seq<char>>, ResolveErr> {
    resolve_from(catalog, rules, Set::empty())
}

/// How the reported error mirrors the model error: the failing pattern or
/// identifier is carried along, and an unknown identifier comes with the
/// name-index diagnostic exactly when the index knows the string as a name.
pub open spec fn err_model_matches(
    e: SyncError,
    m: ResolveErr,
    names: Map<Seq<char>, Seq<char>>,
) -> bool {
    match m {
        ResolveErr::BadPattern { pattern } => e matches SyncError::InvalidPattern {
            pattern: p,
        } && p@ == pattern,
        ResolveErr::UnknownId { id } => e matches SyncError::UnknownPackageId {
            id: i,
            suggestion,
        } && i@ == id && (names.contains_key(id) ==> (suggestion matches Some(s) && s@
            == names[id])) && (!names.contains_key(id) ==> suggestion is None),
    }
}

/// The catalog identifiers among the first `n` that the pattern matches.
pub open spec fn matched_upto(ids: Seq<Seq<char>>, p: Seq<char>, n: int) -> Set<Seq<char>> {
    Set::new(
        |x: Seq<char>| exists|j: int| 0 <= j < n && ids[j] == x && pattern_matches(p, x),
    )
}

proof fn lemma_matched_upto_step(ids: Seq<Seq<char>>, p: Seq<char>, j: int)
    requires
        0 <= j < ids.len(),
    ensures
        pattern_matches(p, ids[j]) ==> matched_upto(ids, p, j + 1) == matched_upto(
            ids,
            p,
            j,
        ).insert(ids[j]),
        !pattern_matches(p, ids[j]) ==> matched_upto(ids, p, j + 1) == matched_upto(ids, p, j),
{
    assert forall|x: Seq<char>| matched_upto(ids, p, j + 1).contains(x) implies matched_upto(
        ids,
        p,
        j,
    ).contains(x) || (x == ids[j] && pattern_matches(p, ids[j])) by {
        let jj = choose|jj: int| 0 <= jj < j + 1 && ids[jj] == x && pattern_matches(p, x);
        if jj < j {
            assert(matched_upto(ids, p, j).contains(x));
        }
    }
    assert forall|x: Seq<char>| matched_upto(ids, p, j).contains(x) implies matched_upto(
        ids,
        p,
        j + 1,
    ).contains(x) by {
        let jj = choose|jj: int| 0 <= jj < j && ids[jj] == x && pattern_matches(p, x);
        assert(0 <= jj < j + 1 && ids[jj] == x && pattern_matches(p, x));
    }
    if pattern_matches(p, ids[j]) {
        assert(matched_upto(ids, p, j + 1).contains(ids[j]));
        assert(matched_upto(ids, p, j + 1) =~= matched_upto(ids, p, j).insert(ids[j]));
    } else {
        assert(matched_upto(ids, p, j + 1) =~= matched_upto(ids, p, j));
    }
}

proof fn lemma_matched_upto_full(ids: Seq<Seq<char>>, c: Set<Seq<char>>, p: Seq<char>)
    requires
        forall|x: Seq<char>| c.contains(x) <==> ids.contains(x),
    ensures
        matched_upto(ids, p, ids.len() as int) == matched_set(c, p),
{
    assert forall|x: Seq<char>|
        matched_upto(ids, p, ids.len() as int).contains(x) implies matched_set(c, p).contains(
        x,
    ) by {
        let jj = choose|jj: int|
            0 <= jj < ids.len() && ids[jj] == x && pattern_matches(p, x);
        assert(ids.contains(x));
    }
    assert forall|x: Seq<char>| matched_set(c, p).contains(x) implies matched_upto(
        ids,
        p,
        ids.len() as int,
    ).contains(x) by {
        let jj = choose|jj: int| 0 <= jj < ids.len() && ids[jj] == x;
        assert(0 <= jj < ids.len() && ids[jj] == x && pattern_matches(p, x));
    }
    assert(matched_upto(ids, p, ids.len() as int) =~= matched_set(c, p));
}

/// Adds every catalog identifier the pattern matches to the working set.
fn regex_include(ws: &mut IdSet, catalog: &IdSet, p: &CompiledPattern)
    requires
        old(ws).wf(),
        catalog.wf(),
    ensures
        final(ws).wf(),
        final(ws)@ == old(ws)@.union(matched_set(catalog@, p.src())),
{
    let ghost ids = catalog.seq_view();
    let ghost ws0 = ws@;
    let n = catalog.len();
    let mut j: usize = 0;
    proof {
        assert(ws@ =~= ws0.union(matched_upto(ids, p.src(), 0)));
    }
    while j < n
        invariant
            ws.wf(),
            catalog.wf(),
            ids == catalog.seq_view(),
            n == ids.len(),
            j <= n,
            ws@ == ws0.union(matched_upto(ids, p.src(), j as int)),
        decreases n - j,
    {
        let id = catalog.idx(j);
        if p.is_match(id.as_str()) {
            let owned = id.clone();
            ws.insert(owned);
        }
        proof {
            lemma_matched_upto_step(ids, p.src(), j as int);
            if pattern_matches(p.src(), ids[j as int]) {
                assert(ws@ =~= ws0.union(matched_upto(ids, p.src(), j as int + 1)));
            } else {
                assert(ws@ =~= ws0.union(matched_upto(ids, p.src(), j as int + 1)));
            }
        }
        j += 1;
    }
    proof {
        lemma_matched_upto_full(ids, catalog@, p.src());
    }
}

/// Removes every catalog identifier the pattern matches from the working
/// set.
fn regex_exclude(ws: &mut IdSet, catalog: &IdSet, p: &CompiledPattern)
    requires
        old(ws).wf(),
        catalog.wf(),
    ensures
        final(ws).wf(),
        final(ws)@ == old(ws)@.difference(matched_set(catalog@, p.src())),
{
    let ghost ids = catalog.seq_view();
    let ghost ws0 = ws@;
    let n = catalog.len();
    let mut j: usize = 0;
    proof {
        assert(ws@ =~= ws0.difference(matched_upto(ids, p.src(), 0)));
    }
    while j < n
        invariant
            ws.wf(),
            catalog.wf(),
            ids == catalog.seq_view(),
            n == ids.len(),
            j <= n,
            ws@ == ws0.difference(matched_upto(ids, p.src(), j as int)),
        decreases n - j,
    {
        let id = catalog.idx(j);
        if p.is_match(id.as_str()) {
            ws.remove(id);
        }
        proof {
            lemma_matched_upto_step(ids, p.src(), j as int);
            if pattern_matches(p.src(), ids[j as int]) {
                assert(ws@ =~= ws0.difference(matched_upto(ids, p.src(), j as int + 1)));
            } else {
                assert(ws@ =~= ws0.difference(matched_upto(ids, p.src(), j as int + 1)));
            }
        }
        j += 1;
    }
    proof {
        lemma_matched_upto_full(ids, catalog@, p.src());
    }
}

/// Resolves the ordered rule list against the catalog: a strict left fold
/// starting from the empty working set. Fails with `InvalidPattern` on a
/// malformed regex and with `UnknownPackageId` when a single-package rule
/// names an identifier absent from the catalog; the latter carries the
/// display-name diagnostic from the index when one is available.
pub fn resolve(catalog: &IdSet, names: &NameIndex, rules: &Vec<PackageRuleEnum>) -> (r: Result<
    IdSet,
    SyncError,
>)
    requires
        catalog.wf(),
        names.wf(),
    ensures
        (r matches Ok(ws) ==> ws.wf() && resolve_spec(catalog@, rule_models(rules@))
            == Ok::<Set<Seq<char>>, ResolveErr>(ws@) && ws@.subset_of(catalog@)),
        (r matches Err(e) ==> resolve_spec(catalog@, rule_models(rules@)) matches Err(me)
            && err_model_matches(e, me, names@)),
{
    let ghost c = catalog@;
    let ghost ms = rule_models(rules@);
    let mut ws = IdSet::new();
    let mut k: usize = 0;
    proof {
        assert(ms.skip(0) =~= ms);
    }
    while k < rules.len()
        invariant
            catalog.wf(),
            names.wf(),
            ws.wf(),
            c == catalog@,
            ms == rule_models(rules@),
            ms.len() == rules@.len(),
            k <= rules.len(),
            resolve_from(c, ms, Set::empty()) == resolve_from(c, ms.skip(k as int), ws@),
        decreases rules.len() - k,
    {
        proof {
            assert(ms.skip(k as int)[0] == ms[k as int]);
            assert(ms.skip(k as int).skip(1) =~= ms.skip(k as int + 1));
            assert(ms[k as int] == rules@[k as int]@);
        }
        match &rules[k] {
            PackageRuleEnum::Regex(rr) => {
                match CompiledPattern::compile(rr.pattern.as_str()) {
                    None => {
                        return Err(SyncError::InvalidPattern { pattern: rr.pattern.clone() });
                    },
                    Some(p) => {
                        match rr.operation {
                            OperationEnum::Include => regex_include(&mut ws, catalog, &p),
                            OperationEnum::Exclude => regex_exclude(&mut ws, catalog, &p),
                        }
                    },
                }
            },
            PackageRuleEnum::Single(sr) => {
                if !catalog.contains(&sr.id) {
                    let suggestion = match names.lookup(&sr.id) {
                        Some(v) => Some(v.clone()),
                        None => None,
                    };
                    return Err(SyncError::UnknownPackageId { id: sr.id.clone(), suggestion });
                }
                match sr.operation {
                    OperationEnum::Include => {
                        let owned = sr.id.clone();
                        ws.insert(owned);
                    },
                    OperationEnum::Exclude => ws.remove(&sr.id),
                }
            },
        }
        k += 1;
    }
    proof {
        assert(ms.skip(rules@.len() as int) =~= Seq::<RuleModel>::empty());
        lemma_resolve_from_subset(c, ms, Set::empty());
    }
    Ok(ws)
}

/// Resolution is deterministic: two resolutions of the same rule list
/// against the same catalog yield the same outcome. `resolve` ensures that
/// its result equals `resolve_spec` of its inputs, so any two runs agree.
pub proof fn lemma_resolve_deterministic(
    catalog: Set<Seq<char>>,
    rules: Seq<RuleModel>,
    r1: Result<Set<Seq<char>>, ResolveErr>,
    r2: Result<Set<Seq<char>>, ResolveErr>,
)
    requires
        r1 == resolve_spec(catalog, rules),
        r2 == resolve_spec(catalog, rules),
    ensures
        r1 == r2,
{
}

/// Rule order matters: for an identifier in the catalog that a valid
/// pattern matches, excluding it before the pattern's include leaves it
/// selected, while excluding it after the include removes it.
pub proof fn lemma_rule_order_matters(catalog: Set<Seq<char>>, a: Seq<char>, p: Seq<char>)
    requires
        catalog.contains(a),
        pattern_ok(p),
        pattern_matches(p, a),
    ensures
        ({
            let r = resolve_spec(
                catalog,
                seq![
                    RuleModel::SingleRule { adds: false, id: a },
                    RuleModel::RegexRule { adds: true, pattern: p },
                ],
            );
            r matches Ok(ws) && ws.contains(a)
        }),
        ({
            let r = resolve_spec(
                catalog,
                seq![
                    RuleModel::RegexRule { adds: true, pattern: p },
                    RuleModel::SingleRule { adds: false, id: a },
                ],
            );
            r matches Ok(ws) && !ws.contains(a)
        }),
{
    let excl = RuleModel::SingleRule { adds: false, id: a };
    let incl = RuleModel::RegexRule { adds: true, pattern: p };
    let e0 = Set::<Seq<char>>::empty();

    let s1 = seq![excl, incl];
    assert(s1.skip(1) =~= seq![incl]);
    assert(seq![incl].skip(1) =~= Seq::<RuleModel>::empty());
    assert(apply_rule(catalog, e0, excl) == Ok::<Set<Seq<char>>, ResolveErr>(e0.remove(a)));
    let w1 = e0.remove(a);
    assert(apply_rule(catalog, w1, incl) == Ok::<Set<Seq<char>>, ResolveErr>(
        w1.union(matched_set(catalog, p)),
    ));
    assert(s1[0] == excl && s1.skip(1)[0] == incl);
    assert(resolve_from(catalog, s1, e0) == resolve_from(catalog, s1.skip(1), w1));
    assert(resolve_from(catalog, s1.skip(1), w1) == resolve_from(
        catalog,
        Seq::<RuleModel>::empty(),
        w1.union(matched_set(catalog, p)),
    )) by {
        assert(seq![incl].skip(1) =~= Seq::<RuleModel>::empty());
    }
    assert(resolve_spec(catalog, s1) == Ok::<Set<Seq<char>>, ResolveErr>(
        w1.union(matched_set(catalog, p)),
    ));
    assert(matched_set(catalog, p).contains(a));
    assert(w1.union(matched_set(catalog, p)).contains(a));

    let s2 = seq![incl, excl];
    assert(s2.skip(1) =~= seq![excl]);
    assert(seq![excl].skip(1) =~= Seq::<RuleModel>::empty());
    let w2 = e0.union(matched_set(catalog, p));
    assert(apply_rule(catalog, e0, incl) == Ok::<Set<Seq<char>>, ResolveErr>(w2));
    assert(apply_rule(catalog, w2, excl) == Ok::<Set<Seq<char>>, ResolveErr>(w2.remove(a)));
    assert(s2[0] == incl && s2.skip(1)[0] == excl);
    assert(resolve_from(catalog, s2, e0) == resolve_from(catalog, s2.skip(1), w2));
    assert(resolve_from(catalog, s2.skip(1), w2) == resolve_from(
        catalog,
        Seq::<RuleModel>::empty(),
        w2.remove(a),
    )) by {
        assert(seq![excl].skip(1) =~= Seq::<RuleModel>::empty());
    }
    assert(resolve_spec(catalog, s2) == Ok::<Set<Seq<char>>, ResolveErr>(w2.remove(a)));
    assert(!w2.remove(a).contains(a));
}

/// A single-package rule that names an identifier absent from the catalog
/// fails with that identifier, whatever the working set and whether the
/// rule includes or excludes: the identifier is never silently added.
pub proof fn lemma_single_unknown_fails(
    catalog: Set<Seq<char>>,
    ws: Set<Seq<char>>,
    id: Seq<char>,
    adds: bool,
)
    requires
        !catalog.contains(id),
    ensures
        apply_rule(catalog, ws, RuleModel::SingleRule { adds, id }) == Err::<
            Set<Seq<char>>,
            ResolveErr,
        >(ResolveErr::UnknownId { id }),
{
}

/// A single-package rule that names an identifier absent from the catalog
/// makes the whole resolution fail with that identifier when every earlier
/// rule succeeded.
pub proof fn lemma_resolve_unknown_fails(catalog: Set<Seq<char>>, id: Seq<char>, adds: bool)
    requires
        !catalog.contains(id),
    ensures
        resolve_spec(catalog, seq![RuleModel::SingleRule { adds, id }]) == Err::<
            Set<Seq<char>>,
            ResolveErr,
        >(ResolveErr::UnknownId { id }),
{
}

/// Excluding a catalog identifier that is not in the working set is a
/// no-op, not an error.
pub proof fn lemma_single_exclude_absent_noop(
    catalog: Set<Seq<char>>,
    ws: Set<Seq<char>>,
    id: Seq<char>,
)
    requires
        catalog.contains(id),
        !ws.contains(id),
    ensures
        apply_rule(catalog, ws, RuleModel::SingleRule { adds: false, id }) == Ok::<
            Set<Seq<char>>,
            ResolveErr,
        >(ws),
{
    assert(ws.remove(id) =~= ws);
}

/// The fold never introduces identifiers absent from the catalog: from a
/// working set inside the catalog, every successful resolution stays inside
/// the catalog.
pub proof fn lemma_resolve_from_subset(
    catalog: Set<Seq<char>>,
    rules: Seq<RuleModel>,
    ws: Set<Seq<char>>,
)
    requires
        ws.subset_of(catalog),
    ensures
        (resolve_from(catalog, rules, ws) matches Ok(s) ==> s.subset_of(catalog)),
    decreases rules.len(),
{
    if rules.len() == 0 {
    } else {
        match apply_rule(catalog, ws, rules[0]) {
            Ok(ws2) => {
                assert(ws2.subset_of(catalog)) by {
                    match rules[0] {
                        RuleModel::RegexRule { adds, pattern } => {},
                        RuleModel::SingleRule { adds, id } => {},
                    }
                }
                lemma_resolve_from_subset(catalog, rules.skip(1), ws2);
            },
            Err(e) => {},
        }
    }
}

/// Resolution never introduces identifiers absent from the catalog.
pub proof fn lemma_resolve_subset(catalog: Set<Seq<char>>, rules: Seq<RuleModel>)
    ensures
        (resolve_spec(catalog, rules) matches Ok(s) ==> s.subset_of(catalog)),
{
    lemma_resolve_from_subset(catalog, rules, Set::empty());
}

} // verus!
