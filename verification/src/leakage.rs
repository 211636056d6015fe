//! Target-wise leakage rules: which candidate predictors may be used to
//! model which contaminant.

use vstd::prelude::*;
use crate::io::{pair_get, pair_lookup, LeakageRulesConfig, SpecialModel, TargetLeakageRule};
use crate::text::{concat, contains, contains_spec, lowercase, owned, str_eq, to_lowercase};

verus! {

/// Some entry of `list` equals `s`.
pub open spec fn any_equal(list: Seq<String>, s: Seq<char>) -> bool {
    exists|i: int| 0 <= i < list.len() && (#[trigger] list[i])@ == s
}

/// The lower-cased form of each string.
pub open spec fn all_lowercase(v: Seq<String>) -> Seq<Seq<char>> {
    v.map_values(|s: String| lowercase(s@))
}

/// Some pattern of `pats` occurs in `hay`.
pub open spec fn any_occurs(hay: Seq<char>, pats: Seq<Seq<char>>) -> bool {
    exists|i: int| 0 <= i < pats.len() && contains_spec(hay, #[trigger] pats[i])
}

/// The view of an optional string slice.
pub open spec fn opt_view(o: Option<&str>) -> Option<Seq<char>> {
    match o {
        Some(s) => Some(s@),
        None => None,
    }
}

/// The rule behind an optional reference.
pub open spec fn opt_rule(o: Option<&TargetLeakageRule>) -> Option<TargetLeakageRule> {
    match o {
        Some(r) => Some(*r),
        None => None,
    }
}

/// The special model of the active variant under a target's rule, if any.
pub open spec fn variant_model(rule: TargetLeakageRule, variant: Option<Seq<char>>) -> Option<SpecialModel> {
    match variant {
        None => None,
        Some(v) => match rule.special_models {
            None => None,
            Some(specials) => pair_lookup(specials@, v),
        },
    }
}

/// The active variant explicitly allows the feature.
pub open spec fn variant_allows(rule: TargetLeakageRule, feature: Seq<char>, variant: Option<Seq<char>>) -> bool {
    variant_model(rule, variant) matches Some(m) && any_equal(m.allow@, feature)
}

/// The active variant bans the feature by name.
pub open spec fn variant_bans(rule: TargetLeakageRule, feature: Seq<char>, variant: Option<Seq<char>>) -> bool {
    variant_model(rule, variant) matches Some(m) && any_equal(m.forbidden_exact@, feature)
}

/// The leakage decision once the feature name and the patterns are lower-cased:
/// a global pattern or one of the target's exact bans forbids; otherwise a
/// feature that the active variant allows passes; otherwise one of the
/// target's substring bans or one of the variant's own exact bans forbids.
pub open spec fn decision_given_lowercase(
    feature: Seq<char>,
    feature_lower: Seq<char>,
    global_lower: Seq<Seq<char>>,
    rule: Option<TargetLeakageRule>,
    contains_lower: Seq<Seq<char>>,
    variant: Option<Seq<char>>,
) -> bool {
    any_occurs(feature_lower, global_lower) || match rule {
        None => false,
        Some(r) => any_equal(r.forbidden_exact@, feature) || (!variant_allows(r, feature, variant) && (
        any_occurs(feature_lower, contains_lower) || variant_bans(r, feature, variant))),
    }
}

/// The rule configured for a target, if any.
pub open spec fn rule_for(rules: LeakageRulesConfig, target: Seq<char>) -> Option<TargetLeakageRule> {
    pair_lookup(rules.targets@, target)
}

/// `feature` is forbidden for `target` under `rules` (and the special variant).
pub open spec fn is_forbidden_spec(feature: Seq<char>, target: Seq<char>, rules: LeakageRulesConfig, variant: Option<Seq<char>>) -> bool {
    let rule = rule_for(rules, target);
    decision_given_lowercase(
        feature,
        lowercase(feature),
        all_lowercase(rules.global_forbidden_patterns@),
        rule,
        match rule {
            Some(r) => all_lowercase(r.forbidden_contains@),
            None => Seq::empty(),
        },
        variant,
    )
}

/// Whether some entry of `list` equals `s`.
pub(crate) fn list_has(list: &[String], s: &str) -> (r: bool)
    ensures
        r == any_equal(list@, s@),
{
    let mut i: usize = 0;
    while i < list.len()
        invariant
            i <= list.len(),
            forall|j: int| 0 <= j < i ==> (#[trigger] list@[j])@ != s@,
        decreases list.len() - i,
    {
        if str_eq(list[i].as_str(), s) {
            assert(list@[i as int]@ == s@);
            return true;
        }
        i = i + 1;
    }
    false
}

/// Whether some pattern of `pats` occurs in `hay`.
fn some_pattern_occurs(hay: &str, pats: &[String]) -> (r: bool)
    ensures
        r == any_occurs(hay@, pats@.map_values(|s: String| s@)),
{
    let ghost pv = pats@.map_values(|s: String| s@);
    let mut i: usize = 0;
    while i < pats.len()
        invariant
            i <= pats.len(),
            pv == pats@.map_values(|s: String| s@),
            forall|j: int| 0 <= j < i ==> !contains_spec(hay@, #[trigger] pv[j]),
        decreases pats.len() - i,
    {
        if contains(hay, pats[i].as_str()) {
            assert(contains_spec(hay@, pv[i as int]));
            return true;
        }
        i = i + 1;
    }
    false
}

/// The lower-cased form of each string.
fn lowercase_each(v: &[String]) -> (r: Vec<String>)
    ensures
        r@.map_values(|s: String| s@) == all_lowercase(v@),
{
    let mut r: Vec<String> = Vec::new();
    let mut i: usize = 0;
    while i < v.len()
        invariant
            i <= v.len(),
            r@.len() == i,
            forall|j: int| 0 <= j < i ==> (#[trigger] r@[j])@ == lowercase(v@[j]@),
        decreases v.len() - i,
    {
        r.push(to_lowercase(v[i].as_str()));
        i = i + 1;
    }
    assert(r@.map_values(|s: String| s@) =~= all_lowercase(v@));
    r
}

/// The leakage decision for a feature whose name and patterns are already
/// lower-cased (`global_lower`, `contains_lower`): true when a lower-cased
/// global pattern occurs in `feature_lower`; otherwise, when the target has a
/// rule, when the feature is among its exact bans; otherwise, unless the
/// active special variant allows the feature, when a lower-cased substring
/// ban occurs or when the variant bans the feature by name.
pub fn forbidden_given_lowercase(
    feature_name: &str,
    feature_lower: &str,
    global_lower: &[String],
    rule: Option<&TargetLeakageRule>,
    contains_lower: &[String],
    special_variant: Option<&str>,
) -> (r: bool)
    ensures
        r == decision_given_lowercase(
            feature_name@,
            feature_lower@,
            global_lower@.map_values(|s: String| s@),
            opt_rule(rule),
            contains_lower@.map_values(|s: String| s@),
            opt_view(special_variant),
        ),
{
    if some_pattern_occurs(feature_lower, global_lower) {
        return true;
    }
    match rule {
        None => false,
        Some(target_rule) => {
            if list_has(target_rule.forbidden_exact.as_slice(), feature_name) {
                return true;
            }
            let model = match special_variant {
                None => None,
                Some(variant) => match &target_rule.special_models {
                    None => None,
                    Some(specials) => pair_get(specials.as_slice(), variant),
                },
            };
            if let Some(m) = model {
                if list_has(m.allow.as_slice(), feature_name) {
                    return false;
                }
            }
            if some_pattern_occurs(feature_lower, contains_lower) {
                return true;
            }
            match model {
                None => false,
                Some(m) => list_has(m.forbidden_exact.as_slice(), feature_name),
            }
        },
    }
}

/// Returns true if `feature_name` is forbidden for `target` under the given rules.
pub fn is_forbidden(
    feature_name: &str,
    target: &str,
    rules: &LeakageRulesConfig,
    special_variant: Option<&str>,
) -> (r: bool)
    ensures
        r == is_forbidden_spec(feature_name@, target@, *rules, opt_view(special_variant)),
{
    let fname_lower = to_lowercase(feature_name);
    let global_lower = lowercase_each(rules.global_forbidden_patterns.as_slice());
    let rule = pair_get(rules.targets.as_slice(), target);
    let contains_lower: Vec<String> = match rule {
        Some(target_rule) => lowercase_each(target_rule.forbidden_contains.as_slice()),
        None => Vec::new(),
    };
    proof {
        if rule is None {
            assert(contains_lower@.map_values(|s: String| s@) =~= Seq::<Seq<char>>::empty());
        }
    }
    forbidden_given_lowercase(
        feature_name,
        fname_lower.as_str(),
        global_lower.as_slice(),
        rule,
        contains_lower.as_slice(),
        special_variant,
    )
}

/// One row of the leakage audit: what was decided for a feature of a target and tier.
#[derive(Debug, Clone)]
pub struct LeakageDecision {
    pub target_contaminant: String,
    pub tier_name: String,
    pub feature_name: String,
    pub action: String,
    pub reason: String,
    pub rule_source: String,
}

/// The outcome of filtering a tier's candidate features for a target.
#[derive(Debug, Clone)]
pub struct LeakageAudit {
    pub included: Vec<String>,
    pub excluded: Vec<String>,
    pub decisions: Vec<LeakageDecision>,
}

/// The names among `cands[..m]` whose leakage decision is `forbidden`, in order.
pub open spec fn split_prefix(
    cands: Seq<String>,
    target: Seq<char>,
    rules: LeakageRulesConfig,
    variant: Option<Seq<char>>,
    forbidden: bool,
    m: int,
) -> Seq<Seq<char>>
    decreases m,
{
    if m <= 0 {
        Seq::empty()
    } else if is_forbidden_spec(cands[m - 1]@, target, rules, variant) == forbidden {
        split_prefix(cands, target, rules, variant, forbidden, m - 1).push(cands[m - 1]@)
    } else {
        split_prefix(cands, target, rules, variant, forbidden, m - 1)
    }
}

/// The names among `cands` whose leakage decision is `forbidden`, in order.
pub open spec fn split_side(
    cands: Seq<String>,
    target: Seq<char>,
    rules: LeakageRulesConfig,
    variant: Option<Seq<char>>,
    forbidden: bool,
) -> Seq<Seq<char>> {
    split_prefix(cands, target, rules, variant, forbidden, cands.len() as int)
}

/// The views of a list of strings.
pub open spec fn names(v: Seq<String>) -> Seq<Seq<char>> {
    v.map_values(|s: String| s@)
}

/// The audit row for `feature` under target `target` and stored tier `tier`.
pub open spec fn decision_is(d: LeakageDecision, target: Seq<char>, tier: Seq<char>, feature: Seq<char>, forbidden: bool) -> bool {
    &&& d.target_contaminant@ == target
    &&& d.tier_name@ == tier
    &&& d.feature_name@ == feature
    &&& d.action@ == if forbidden {
        "excluded"@
    } else {
        "included"@
    }
    &&& d.reason@ == if forbidden {
        "Leakage rule applied for target '"@ + target + "'"@
    } else {
        "Passed all leakage checks"@
    }
    &&& d.rule_source@ == "leakage_rules.yaml"@
}

/// Returns the included and the excluded features for a target/tier pair,
/// with one audit row per candidate, in candidate order.
///
/// `storage_tier` is the tier name recorded in the audit rows (it may differ
/// from `tier` for special TDS variants, so that the strict model's record
/// does not overwrite the standard model's).
pub fn apply_leakage_filter(
    candidate_features: &[String],
    target: &str,
    _tier: &str,
    storage_tier: &str,
    rules: &LeakageRulesConfig,
    special_variant: Option<&str>,
) -> (r: LeakageAudit)
    ensures
        names(r.included@) == split_side(candidate_features@, target@, *rules, opt_view(special_variant), false),
        names(r.excluded@) == split_side(candidate_features@, target@, *rules, opt_view(special_variant), true),
        r.decisions@.len() == candidate_features@.len(),
        forall|i: int|
            0 <= i < candidate_features@.len() ==> decision_is(
                #[trigger] r.decisions@[i],
                target@,
                storage_tier@,
                candidate_features@[i]@,
                is_forbidden_spec(candidate_features@[i]@, target@, *rules, opt_view(special_variant)),
            ),
{
    let ghost v = opt_view(special_variant);
    let mut included: Vec<String> = Vec::new();
    let mut excluded: Vec<String> = Vec::new();
    let mut decisions: Vec<LeakageDecision> = Vec::new();
    let mut i: usize = 0;
    while i < candidate_features.len()
        invariant
            i <= candidate_features.len(),
            v == opt_view(special_variant),
            names(included@) == split_prefix(candidate_features@, target@, *rules, v, false, i as int),
            names(excluded@) == split_prefix(candidate_features@, target@, *rules, v, true, i as int),
            decisions@.len() == i,
            forall|j: int|
                0 <= j < i ==> decision_is(
                    #[trigger] decisions@[j],
                    target@,
                    storage_tier@,
                    candidate_features@[j]@,
                    is_forbidden_spec(candidate_features@[j]@, target@, *rules, v),
                ),
        decreases candidate_features.len() - i,
    {
        let feat = &candidate_features[i];
        let forbidden = is_forbidden(feat.as_str(), target, rules, special_variant);
        let (action, reason) = if forbidden {
            let prefix = concat("Leakage rule applied for target '", target);
            (owned("excluded"), concat(prefix.as_str(), "'"))
        } else {
            (owned("included"), owned("Passed all leakage checks"))
        };
        decisions.push(
            LeakageDecision {
                target_contaminant: owned(target),
                tier_name: owned(storage_tier),
                feature_name: feat.clone(),
                action,
                reason,
                rule_source: owned("leakage_rules.yaml"),
            },
        );
        if forbidden {
            excluded.push(feat.clone());
            assert(names(excluded@) =~= names(excluded@.drop_last()).push(feat@));
        } else {
            included.push(feat.clone());
            assert(names(included@) =~= names(included@.drop_last()).push(feat@));
        }
        i = i + 1;
    }
    LeakageAudit { included, excluded, decisions }
}

// ── Laws ─────────────────────────────────────────────────────────────────────

proof fn lemma_split_prefix_partition(
    cands: Seq<String>,
    target: Seq<char>,
    rules: LeakageRulesConfig,
    variant: Option<Seq<char>>,
    m: int,
)
    requires
        0 <= m <= cands.len(),
    ensures
        (split_prefix(cands, target, rules, variant, false, m) + split_prefix(cands, target, rules, variant, true, m)).to_multiset()
            == names(cands).take(m).to_multiset(),
    decreases m,
{
    broadcast use vstd::seq_lib::group_to_multiset_ensures;

    let a = split_prefix(cands, target, rules, variant, false, m);
    let b = split_prefix(cands, target, rules, variant, true, m);
    vstd::seq_lib::lemma_multiset_commutative(a, b);
    if m == 0 {
        assert(names(cands).take(0) =~= Seq::<Seq<char>>::empty());
        assert((a + b) =~= Seq::<Seq<char>>::empty());
    } else {
        lemma_split_prefix_partition(cands, target, rules, variant, m - 1);
        let a0 = split_prefix(cands, target, rules, variant, false, m - 1);
        let b0 = split_prefix(cands, target, rules, variant, true, m - 1);
        vstd::seq_lib::lemma_multiset_commutative(a0, b0);
        assert(names(cands).take(m) =~= names(cands).take(m - 1).push(cands[m - 1]@));
        assert((a + b).to_multiset() =~= (a0 + b0).to_multiset().insert(cands[m - 1]@));
    }
}

/// Law: the included and the excluded features of a leakage filter are the
/// candidates, each exactly once: no candidate is lost or duplicated.
pub proof fn law_leakage_filter_partitions(
    cands: Seq<String>,
    target: Seq<char>,
    rules: LeakageRulesConfig,
    variant: Option<Seq<char>>,
)
    ensures
        (split_side(cands, target, rules, variant, false) + split_side(cands, target, rules, variant, true)).to_multiset()
            == names(cands).to_multiset(),
{
    lemma_split_prefix_partition(cands, target, rules, variant, cands.len() as int);
    assert(names(cands).take(cands.len() as int) =~= names(cands));
}

proof fn lemma_split_prefix_sides(
    cands: Seq<String>,
    target: Seq<char>,
    rules: LeakageRulesConfig,
    variant: Option<Seq<char>>,
    forbidden: bool,
    m: int,
    i: int,
)
    requires
        0 <= m <= cands.len(),
        0 <= i < split_prefix(cands, target, rules, variant, forbidden, m).len(),
    ensures
        is_forbidden_spec(split_prefix(cands, target, rules, variant, forbidden, m)[i], target, rules, variant)
            == forbidden,
    decreases m,
{
    if m > 0 {
        let prev = split_prefix(cands, target, rules, variant, forbidden, m - 1);
        if i < prev.len() {
            lemma_split_prefix_sides(cands, target, rules, variant, forbidden, m - 1, i);
        }
    }
}

/// Law: no included feature is forbidden and every excluded feature is.
pub proof fn law_leakage_filter_sides(
    cands: Seq<String>,
    target: Seq<char>,
    rules: LeakageRulesConfig,
    variant: Option<Seq<char>>,
    forbidden: bool,
    i: int,
)
    requires
        0 <= i < split_side(cands, target, rules, variant, forbidden).len(),
    ensures
        is_forbidden_spec(split_side(cands, target, rules, variant, forbidden)[i], target, rules, variant)
            == forbidden,
{
    lemma_split_prefix_sides(cands, target, rules, variant, forbidden, cands.len() as int, i);
}

/// Law: a feature in which a global forbidden pattern occurs (both lower-cased)
/// is forbidden for every target and every special variant.
pub proof fn law_global_pattern_forbids(
    feature: Seq<char>,
    target: Seq<char>,
    rules: LeakageRulesConfig,
    variant: Option<Seq<char>>,
    i: int,
)
    requires
        0 <= i < rules.global_forbidden_patterns@.len(),
        contains_spec(lowercase(feature), lowercase(rules.global_forbidden_patterns@[i]@)),
    ensures
        is_forbidden_spec(feature, target, rules, variant),
{
    assert(all_lowercase(rules.global_forbidden_patterns@)[i] == lowercase(rules.global_forbidden_patterns@[i]@));
}

/// Law: a feature on a target's exact ban list is forbidden for that target
/// under every special variant.
pub proof fn law_exact_ban_forbids(
    feature: Seq<char>,
    target: Seq<char>,
    rules: LeakageRulesConfig,
    variant: Option<Seq<char>>,
    i: int,
)
    requires
        rule_for(rules, target) matches Some(r) && 0 <= i < r.forbidden_exact@.len() && r.forbidden_exact@[i]@ == feature,
    ensures
        is_forbidden_spec(feature, target, rules, variant),
{
    let r = rule_for(rules, target)->0;
    assert(any_equal(r.forbidden_exact@, feature));
}

/// Law: a feature in which one of the target's substring bans occurs (both
/// lower-cased) is forbidden for that target, unless the active special
/// variant allows the feature.
pub proof fn law_contains_ban_forbids(
    feature: Seq<char>,
    target: Seq<char>,
    rules: LeakageRulesConfig,
    variant: Option<Seq<char>>,
    i: int,
)
    requires
        rule_for(rules, target) matches Some(r) && 0 <= i < r.forbidden_contains@.len() && contains_spec(
            lowercase(feature),
            lowercase(r.forbidden_contains@[i]@),
        ) && !variant_allows(r, feature, variant),
    ensures
        is_forbidden_spec(feature, target, rules, variant),
{
    let r = rule_for(rules, target)->0;
    assert(all_lowercase(r.forbidden_contains@)[i] == lowercase(r.forbidden_contains@[i]@));
}

/// Law: a feature that the active special variant allows, and that neither
/// a global pattern nor the target's exact bans catch, is not forbidden; the
/// variant's allowance overrides the target's substring bans.
pub proof fn law_variant_allow_overrides_contains(
    feature: Seq<char>,
    target: Seq<char>,
    rules: LeakageRulesConfig,
    variant: Seq<char>,
)
    requires
        !any_occurs(lowercase(feature), all_lowercase(rules.global_forbidden_patterns@)),
        rule_for(rules, target) matches Some(r) && !any_equal(r.forbidden_exact@, feature) && variant_allows(
            r,
            feature,
            Some(variant),
        ),
    ensures
        !is_forbidden_spec(feature, target, rules, Some(variant)),
{
}

/// Law: apart from the features it allows, a special variant never lifts a
/// ban of the standard rules; it can only add bans.
pub proof fn law_variant_adds_bans_unless_allowed(
    feature: Seq<char>,
    target: Seq<char>,
    rules: LeakageRulesConfig,
    variant: Seq<char>,
)
    requires
        is_forbidden_spec(feature, target, rules, None),
        !(rule_for(rules, target) matches Some(r) && variant_allows(r, feature, Some(variant))),
    ensures
        is_forbidden_spec(feature, target, rules, Some(variant)),
{
}

/// Law: a target without a rule forbids only what a global pattern forbids.
pub proof fn law_unruled_target(
    feature: Seq<char>,
    target: Seq<char>,
    rules: LeakageRulesConfig,
    variant: Option<Seq<char>>,
)
    requires
        rule_for(rules, target) is None,
    ensures
        is_forbidden_spec(feature, target, rules, variant) == any_occurs(
            lowercase(feature),
            all_lowercase(rules.global_forbidden_patterns@),
        ),
{
}

} // verus!
