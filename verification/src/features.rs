//! Column roles, units and the candidate predictors of each tier.

use vstd::prelude::*;
use crate::text::{owned, str_eq};

verus! {

/// The role and unit assigned to a CSV column.
#[derive(Debug, Clone)]
pub struct ColumnMeta {
    pub name: String,
    pub inferred_type: String,
    pub scientific_role: String,
    pub unit: String,
    pub is_coordinate: bool,
    pub is_target_candidate: bool,
    pub is_field_variable: bool,
    pub is_lab_variable: bool,
    pub is_derived_variable: bool,
}

/// The target contaminants.
pub open spec fn is_target_name(h: Seq<char>) -> bool {
    h == "Na"@ || h == "Cl"@ || h == "TDS"@ || h == "B"@ || h == "F"@ || h == "NO3"@
}

/// The field parameters.
pub open spec fn is_field_name(h: Seq<char>) -> bool {
    h == "pH"@ || h == "Temp."@ || h == "EC"@
}

/// The coordinate columns.
pub open spec fn is_coord_name(h: Seq<char>) -> bool {
    h == "Dx"@ || h == "Dy"@
}

/// The identifier columns.
pub open spec fn is_id_name(h: Seq<char>) -> bool {
    h == "SampleID"@ || h == "Location"@
}

/// The scientific role of a column.
pub open spec fn role_of(h: Seq<char>) -> Seq<char> {
    if is_id_name(h) {
        "identifier"@
    } else if is_coord_name(h) {
        "coordinate"@
    } else if is_field_name(h) {
        "field_parameter"@
    } else if is_target_name(h) {
        "target_contaminant"@
    } else {
        "laboratory_chemical"@
    }
}

/// The unit of a column in the column dictionary.
pub open spec fn unit_of(h: Seq<char>) -> Seq<char> {
    if h == "pH"@ {
        "dimensionless"@
    } else if h == "Temp."@ {
        "°C"@
    } else if h == "EC"@ {
        "µS/cm"@
    } else if h == "TDS"@ {
        "mg/L"@
    } else if h == "Dx"@ {
        "decimal_degrees_lon"@
    } else if h == "Dy"@ {
        "decimal_degrees_lat"@
    } else if is_id_name(h) {
        "text"@
    } else {
        "mg/L"@
    }
}

/// The dictionary entry of column `h`.
pub open spec fn column_meta_is(m: ColumnMeta, h: Seq<char>) -> bool {
    &&& m.name@ == h
    &&& m.inferred_type@ == "numeric"@
    &&& m.scientific_role@ == role_of(h)
    &&& m.unit@ == unit_of(h)
    &&& m.is_coordinate == is_coord_name(h)
    &&& m.is_target_candidate == is_target_name(h)
    &&& m.is_field_variable == is_field_name(h)
    &&& m.is_lab_variable == !(is_coord_name(h) || is_target_name(h) || is_field_name(h) || is_id_name(h))
    &&& !m.is_derived_variable
}

/// The unit recorded in the column dictionary for a column.
pub fn infer_unit(col: &str) -> (r: String)
    ensures
        r@ == unit_of(col@),
{
    if str_eq(col, "pH") {
        owned("dimensionless")
    } else if str_eq(col, "Temp.") {
        owned("°C")
    } else if str_eq(col, "EC") {
        owned("µS/cm")
    } else if str_eq(col, "TDS") {
        owned("mg/L")
    } else if str_eq(col, "Dx") {
        owned("decimal_degrees_lon")
    } else if str_eq(col, "Dy") {
        owned("decimal_degrees_lat")
    } else if str_eq(col, "SampleID") || str_eq(col, "Location") {
        owned("text")
    } else {
        owned("mg/L")
    }
}

/// Classify one column into its scientific role.
fn column_meta(h: &String) -> (m: ColumnMeta)
    ensures
        column_meta_is(m, h@),
{
    let hs = h.as_str();
    let is_coord = str_eq(hs, "Dx") || str_eq(hs, "Dy");
    let is_target = str_eq(hs, "Na") || str_eq(hs, "Cl") || str_eq(hs, "TDS") || str_eq(hs, "B")
        || str_eq(hs, "F") || str_eq(hs, "NO3");
    let is_field = str_eq(hs, "pH") || str_eq(hs, "Temp.") || str_eq(hs, "EC");
    let is_id = str_eq(hs, "SampleID") || str_eq(hs, "Location");
    let is_lab = !is_coord && !is_target && !is_field && !is_id;
    let sci_role = if is_id {
        owned("identifier")
    } else if is_coord {
        owned("coordinate")
    } else if is_field {
        owned("field_parameter")
    } else if is_target {
        owned("target_contaminant")
    } else {
        owned("laboratory_chemical")
    };
    ColumnMeta {
        name: h.clone(),
        inferred_type: owned("numeric"),
        scientific_role: sci_role,
        unit: infer_unit(hs),
        is_coordinate: is_coord,
        is_target_candidate: is_target,
        is_field_variable: is_field,
        is_lab_variable: is_lab && !is_id,
        is_derived_variable: false,
    }
}

/// Classify every CSV column into scientific roles.
pub fn build_column_metadata(headers: &[String]) -> (r: Vec<ColumnMeta>)
    ensures
        r@.len() == headers@.len(),
        forall|i: int| 0 <= i < headers@.len() ==> column_meta_is(#[trigger] r@[i], headers@[i]@),
{
    let mut r: Vec<ColumnMeta> = Vec::new();
    let mut i: usize = 0;
    while i < headers.len()
        invariant
            i <= headers.len(),
            r@.len() == i,
            forall|j: int| 0 <= j < i ==> column_meta_is(#[trigger] r@[j], headers@[j]@),
        decreases headers.len() - i,
    {
        r.push(column_meta(&headers[i]));
        i = i + 1;
    }
    r
}

// ── Tier candidate lists ─────────────────────────────────────────────────────

/// The field-screening tier: pH, temperature, EC and the coordinates.
pub open spec fn tier1_features() -> Seq<Seq<char>> {
    seq!["pH"@, "Temp."@, "EC"@, "Dx"@, "Dy"@]
}

/// The reduced-chemistry tier: tier 1 plus the common major ions.
pub open spec fn tier2_features() -> Seq<Seq<char>> {
    tier1_features() + seq!["Na"@, "K"@, "Mg"@, "Ca"@, "Cl"@, "HCO3"@, "SO4"@]
}

/// The full-chemistry tier: tier 2 plus further ions and the derived ratios.
pub open spec fn tier3_features() -> Seq<Seq<char>> {
    tier2_features() + seq![
        "CO3"@,
        "NO3"@,
        "F"@,
        "B"@,
        "Na_Cl_ratio"@,
        "Mg_Ca_ratio"@,
        "HCO3_Cl_ratio"@,
        "SAR"@,
        "Ca_Mg_ratio"@,
    ]
}

/// The candidate features of a tier (none for an unknown tier).
pub open spec fn tier_features(tier: Seq<char>) -> Seq<Seq<char>> {
    if tier == "Tier1_Field"@ {
        tier1_features()
    } else if tier == "Tier2_Reduced"@ {
        tier2_features()
    } else if tier == "Tier3_Full"@ {
        tier3_features()
    } else {
        Seq::empty()
    }
}

/// The names of tier 1.
fn tier1_names() -> (r: Vec<String>)
    ensures
        r@.map_values(|s: String| s@) == tier1_features(),
{
    let mut r: Vec<String> = Vec::new();
    r.push(owned("pH"));
    r.push(owned("Temp."));
    r.push(owned("EC"));
    r.push(owned("Dx"));
    r.push(owned("Dy"));
    assert(r@.map_values(|s: String| s@) =~= tier1_features());
    r
}

/// The names of tier 2.
fn tier2_names() -> (r: Vec<String>)
    ensures
        r@.map_values(|s: String| s@) == tier2_features(),
{
    let mut r = tier1_names();
    r.push(owned("Na"));
    r.push(owned("K"));
    r.push(owned("Mg"));
    r.push(owned("Ca"));
    r.push(owned("Cl"));
    r.push(owned("HCO3"));
    r.push(owned("SO4"));
    assert(r@.map_values(|s: String| s@) =~= tier2_features());
    r
}

/// The names of tier 3.
fn tier3_names() -> (r: Vec<String>)
    ensures
        r@.map_values(|s: String| s@) == tier3_features(),
{
    let mut r = tier2_names();
    r.push(owned("CO3"));
    r.push(owned("NO3"));
    r.push(owned("F"));
    r.push(owned("B"));
    r.push(owned("Na_Cl_ratio"));
    r.push(owned("Mg_Ca_ratio"));
    r.push(owned("HCO3_Cl_ratio"));
    r.push(owned("SAR"));
    r.push(owned("Ca_Mg_ratio"));
    assert(r@.map_values(|s: String| s@) =~= tier3_features());
    r
}

/// Returns the candidate feature names for a given tier (before leakage filtering).
pub fn tier_candidate_features(tier: &str) -> (r: Vec<String>)
    ensures
        r@.map_values(|s: String| s@) == tier_features(tier@),
{
    if str_eq(tier, "Tier1_Field") {
        tier1_names()
    } else if str_eq(tier, "Tier2_Reduced") {
        tier2_names()
    } else if str_eq(tier, "Tier3_Full") {
        tier3_names()
    } else {
        let r: Vec<String> = Vec::new();
        assert(r@.map_values(|s: String| s@) =~= Seq::<Seq<char>>::empty());
        r
    }
}

/// The kind of a candidate feature and, for a derived one, its formula.
pub open spec fn feature_kind(feat: Seq<char>) -> (Seq<char>, Option<Seq<char>>) {
    if feat == "Na_Cl_ratio"@ {
        ("derived_ratio"@, Some("Na/Cl"@))
    } else if feat == "Mg_Ca_ratio"@ {
        ("derived_ratio"@, Some("Mg/Ca"@))
    } else if feat == "HCO3_Cl_ratio"@ {
        ("derived_ratio"@, Some("HCO3/Cl"@))
    } else if feat == "SAR"@ {
        ("derived_ratio"@, Some("Na/sqrt(0.5*(Ca+Mg))"@))
    } else if feat == "Ca_Mg_ratio"@ {
        ("derived_ratio"@, Some("Ca/Mg"@))
    } else if is_coord_name(feat) {
        ("coordinate"@, None)
    } else {
        ("measured"@, None)
    }
}

/// The view of an optional owned string.
pub open spec fn opt_string_view(o: Option<String>) -> Option<Seq<char>> {
    match o {
        Some(s) => Some(s@),
        None => None,
    }
}

/// The kind of a candidate feature and, for a derived one, its formula.
pub fn classify_feature(feat: &str) -> (r: (&'static str, Option<String>))
    ensures
        r.0@ == feature_kind(feat@).0,
        opt_string_view(r.1) == feature_kind(feat@).1,
{
    if str_eq(feat, "Na_Cl_ratio") {
        ("derived_ratio", Some(owned("Na/Cl")))
    } else if str_eq(feat, "Mg_Ca_ratio") {
        ("derived_ratio", Some(owned("Mg/Ca")))
    } else if str_eq(feat, "HCO3_Cl_ratio") {
        ("derived_ratio", Some(owned("HCO3/Cl")))
    } else if str_eq(feat, "SAR") {
        ("derived_ratio", Some(owned("Na/sqrt(0.5*(Ca+Mg))")))
    } else if str_eq(feat, "Ca_Mg_ratio") {
        ("derived_ratio", Some(owned("Ca/Mg")))
    } else if str_eq(feat, "Dx") || str_eq(feat, "Dy") {
        ("coordinate", None)
    } else {
        ("measured", None)
    }
}

/// One row of the candidate-feature table.
#[derive(Debug, Clone)]
pub struct CandidateFeature {
    pub feature_name: String,
    pub source_variable: String,
    pub tier_name: String,
    pub feature_type: String,
    pub formula_if_derived: Option<String>,
}

/// The `(tier, feature)` pairs of one tier, in candidate order.
pub open spec fn tier_rows(tier: Seq<char>) -> Seq<(Seq<char>, Seq<char>)> {
    tier_features(tier).map_values(|f: Seq<char>| (tier, f))
}

/// The `(tier, feature)` pairs of all three tiers.
pub open spec fn all_tier_rows() -> Seq<(Seq<char>, Seq<char>)> {
    tier_rows("Tier1_Field"@) + tier_rows("Tier2_Reduced"@) + tier_rows("Tier3_Full"@)
}

/// Row `c` describes feature `f` of tier `t`.
pub open spec fn candidate_row_is(c: CandidateFeature, t: Seq<char>, f: Seq<char>) -> bool {
    &&& c.feature_name@ == f
    &&& c.source_variable@ == f
    &&& c.tier_name@ == t
    &&& c.feature_type@ == feature_kind(f).0
    &&& opt_string_view(c.formula_if_derived) == feature_kind(f).1
}

/// Appends the rows of one tier.
fn push_tier_rows(out: &mut Vec<CandidateFeature>, tier: &str)
    ensures
        final(out)@.len() == old(out)@.len() + tier_rows(tier@).len(),
        forall|i: int| 0 <= i < old(out)@.len() ==> #[trigger] final(out)@[i] == old(out)@[i],
        forall|i: int|
            0 <= i < tier_rows(tier@).len() ==> candidate_row_is(
                #[trigger] final(out)@[old(out)@.len() + i],
                tier_rows(tier@)[i].0,
                tier_rows(tier@)[i].1,
            ),
{
    let feats = tier_candidate_features(tier);
    let ghost start = out@;
    let ghost fv = feats@.map_values(|s: String| s@);
    let mut i: usize = 0;
    while i < feats.len()
        invariant
            i <= feats.len(),
            fv == feats@.map_values(|s: String| s@),
            fv == tier_features(tier@),
            out@.len() == start.len() + i,
            forall|j: int| 0 <= j < start.len() ==> #[trigger] out@[j] == start[j],
            forall|j: int|
                0 <= j < i ==> candidate_row_is(
                    #[trigger] out@[start.len() + j],
                    tier_rows(tier@)[j].0,
                    tier_rows(tier@)[j].1,
                ),
        decreases feats.len() - i,
    {
        let f = &feats[i];
        let (kind, formula) = classify_feature(f.as_str());
        assert(fv[i as int] == f@);
        out.push(
            CandidateFeature {
                feature_name: f.clone(),
                source_variable: f.clone(),
                tier_name: owned(tier),
                feature_type: owned(kind),
                formula_if_derived: formula,
            },
        );
        i = i + 1;
    }
}

/// The candidate-feature table: every candidate of every tier with its kind
/// and formula, tier by tier.
pub fn candidate_feature_rows() -> (r: Vec<CandidateFeature>)
    ensures
        r@.len() == all_tier_rows().len(),
        forall|i: int|
            0 <= i < r@.len() ==> candidate_row_is(#[trigger] r@[i], all_tier_rows()[i].0, all_tier_rows()[i].1),
{
    let mut r: Vec<CandidateFeature> = Vec::new();
    push_tier_rows(&mut r, "Tier1_Field");
    let ghost l1 = r@.len();
    let ghost r1 = r@;
    push_tier_rows(&mut r, "Tier2_Reduced");
    let ghost l2 = r@.len();
    let ghost r2 = r@;
    push_tier_rows(&mut r, "Tier3_Full");
    let ghost rows = all_tier_rows();
    let ghost a = tier_rows("Tier1_Field"@);
    let ghost b = tier_rows("Tier2_Reduced"@);
    let ghost c = tier_rows("Tier3_Full"@);
    assert forall|i: int| 0 <= i < r@.len() implies candidate_row_is(#[trigger] r@[i], rows[i].0, rows[i].1) by {
        if i < l1 {
            assert(r@[i] == r2[i]);
            assert(r2[i] == r1[i]);
            assert(rows[i] == a[i]);
            let z: int = 0;
            assert(r1[z + i] == r1[i]);
            assert(candidate_row_is(r1[i], a[i].0, a[i].1));
        } else if i < l2 {
            assert(r@[i] == r2[i]);
            assert(r2[l1 + (i - l1)] == r2[i]);
            assert(rows[i] == b[i - l1]);
            assert(candidate_row_is(r2[l1 + (i - l1)], b[i - l1].0, b[i - l1].1));
        } else {
            assert(r@[l2 + (i - l2)] == r@[i]);
            assert(rows[i] == c[i - l2]);
        }
    }
    r
}

/// One row of the predictor-tier table.
#[derive(Debug, Clone)]
pub struct PredictorTier {
    pub tier_name: String,
    pub tier_description: String,
    pub intended_use: String,
}

/// The three predictor tiers with their descriptions and intended use.
pub fn predictor_tier_definitions() -> (r: Vec<PredictorTier>)
    ensures
        r@.len() == 3,
        r@[0].tier_name@ == "Tier1_Field"@,
        r@[0].tier_description@ == "Field-screening model — lowest cost"@,
        r@[0].intended_use@ == "pH, temperature, EC, and spatial coordinates only"@,
        r@[1].tier_name@ == "Tier2_Reduced"@,
        r@[1].tier_description@ == "Reduced-chemistry model — moderate cost"@,
        r@[1].intended_use@ == "Common major ions excluding target and circular proxies"@,
        r@[2].tier_name@ == "Tier3_Full"@,
        r@[2].tier_description@ == "Full-chemistry model — upper-bound performance"@,
        r@[2].intended_use@ == "Full chemistry plus derived ratios, after leakage filtering"@,
{
    let mut r: Vec<PredictorTier> = Vec::new();
    r.push(
        PredictorTier {
            tier_name: owned("Tier1_Field"),
            tier_description: owned("Field-screening model — lowest cost"),
            intended_use: owned("pH, temperature, EC, and spatial coordinates only"),
        },
    );
    r.push(
        PredictorTier {
            tier_name: owned("Tier2_Reduced"),
            tier_description: owned("Reduced-chemistry model — moderate cost"),
            intended_use: owned("Common major ions excluding target and circular proxies"),
        },
    );
    r.push(
        PredictorTier {
            tier_name: owned("Tier3_Full"),
            tier_description: owned("Full-chemistry model — upper-bound performance"),
            intended_use: owned("Full chemistry plus derived ratios, after leakage filtering"),
        },
    );
    r
}

/// Law: the tiers are nested; each tier's candidates start with all of the
/// previous tier's candidates, in the same order.
pub proof fn law_tiers_nested()
    ensures
        tier_features("Tier2_Reduced"@).take(tier_features("Tier1_Field"@).len() as int) == tier_features("Tier1_Field"@),
        tier_features("Tier3_Full"@).take(tier_features("Tier2_Reduced"@).len() as int) == tier_features("Tier2_Reduced"@),
        tier_features("Tier1_Field"@).len() == 5,
        tier_features("Tier2_Reduced"@).len() == 12,
        tier_features("Tier3_Full"@).len() == 21,
{
    reveal_strlit("Tier1_Field");
    reveal_strlit("Tier2_Reduced");
    reveal_strlit("Tier3_Full");
    assert("Tier1_Field"@.len() != "Tier2_Reduced"@.len());
    assert("Tier1_Field"@.len() != "Tier3_Full"@.len());
    assert("Tier2_Reduced"@.len() != "Tier3_Full"@.len());
    assert(tier2_features().take(5) =~= tier1_features());
    assert(tier3_features().take(12) =~= tier2_features());
}

/// `s` holds no underscore.
pub open spec fn no_underscore(s: Seq<char>) -> bool {
    forall|i: int| 0 <= i < s.len() ==> s[i] != '_'
}

/// Two names joined by `_` to what follows split the same way when neither
/// name holds an underscore.
proof fn lemma_split_at_underscore(a: Seq<char>, x: Seq<char>, b: Seq<char>, y: Seq<char>)
    requires
        no_underscore(a),
        no_underscore(b),
        a + seq!['_'] + x == b + seq!['_'] + y,
    ensures
        a == b,
        x == y,
{
    let l = a + seq!['_'] + x;
    let r = b + seq!['_'] + y;
    if a.len() < b.len() {
        assert(l[a.len() as int] == '_');
        assert(r[a.len() as int] == b[a.len() as int]);
    } else if b.len() < a.len() {
        assert(r[b.len() as int] == '_');
        assert(l[b.len() as int] == a[b.len() as int]);
    }
    assert(a =~= l.take(a.len() as int));
    assert(b =~= r.take(b.len() as int));
    assert(x =~= l.skip(a.len() as int + 1));
    assert(y =~= r.skip(b.len() as int + 1));
}

proof fn lemma_ratio_name(a: Seq<char>, b: Seq<char>, n: Seq<char>, d: Seq<char>)
    requires
        no_underscore(a),
        no_underscore(b),
        no_underscore(n),
        no_underscore(d),
        a + seq!['_'] + b + "_ratio"@ == n + seq!['_'] + d + "_ratio"@,
    ensures
        a == n,
        b == d,
{
    reveal_strlit("_ratio");
    assert("_ratio"@ =~= seq!['_'] + "ratio"@) by {
        reveal_strlit("ratio");
    }
    assert(a + seq!['_'] + b + "_ratio"@ =~= a + seq!['_'] + (b + seq!['_'] + "ratio"@));
    assert(n + seq!['_'] + d + "_ratio"@ =~= n + seq!['_'] + (d + seq!['_'] + "ratio"@));
    lemma_split_at_underscore(a, b + seq!['_'] + "ratio"@, n, d + seq!['_'] + "ratio"@);
    lemma_split_at_underscore(b, "ratio"@, d, "ratio"@);
}

/// Law: a derived ratio named `X_Y_ratio` (`X` and `Y` without underscores)
/// has the formula `X/Y`: the first named ion is the numerator.
pub proof fn law_ratio_formula(x: Seq<char>, y: Seq<char>)
    requires
        no_underscore(x),
        no_underscore(y),
        feature_kind(x + seq!['_'] + y + "_ratio"@).0 == "derived_ratio"@,
    ensures
        feature_kind(x + seq!['_'] + y + "_ratio"@).1 == Some(x + seq!['/'] + y),
{
    let f = x + seq!['_'] + y + "_ratio"@;
    reveal_strlit("Na_Cl_ratio");
    reveal_strlit("Mg_Ca_ratio");
    reveal_strlit("HCO3_Cl_ratio");
    reveal_strlit("SAR");
    reveal_strlit("Ca_Mg_ratio");
    reveal_strlit("_ratio");
    reveal_strlit("Na");
    reveal_strlit("Cl");
    reveal_strlit("Mg");
    reveal_strlit("Ca");
    reveal_strlit("HCO3");
    reveal_strlit("Na/Cl");
    reveal_strlit("Mg/Ca");
    reveal_strlit("HCO3/Cl");
    reveal_strlit("Ca/Mg");
    reveal_strlit("derived_ratio");
    reveal_strlit("coordinate");
    reveal_strlit("measured");
    assert(f.len() >= 7);
    if f == "Na_Cl_ratio"@ {
        assert("Na_Cl_ratio"@ =~= "Na"@ + seq!['_'] + "Cl"@ + "_ratio"@);
        lemma_ratio_name(x, y, "Na"@, "Cl"@);
        assert("Na/Cl"@ =~= "Na"@ + seq!['/'] + "Cl"@);
    } else if f == "Mg_Ca_ratio"@ {
        assert("Mg_Ca_ratio"@ =~= "Mg"@ + seq!['_'] + "Ca"@ + "_ratio"@);
        lemma_ratio_name(x, y, "Mg"@, "Ca"@);
        assert("Mg/Ca"@ =~= "Mg"@ + seq!['/'] + "Ca"@);
    } else if f == "HCO3_Cl_ratio"@ {
        assert("HCO3_Cl_ratio"@ =~= "HCO3"@ + seq!['_'] + "Cl"@ + "_ratio"@);
        lemma_ratio_name(x, y, "HCO3"@, "Cl"@);
        assert("HCO3/Cl"@ =~= "HCO3"@ + seq!['/'] + "Cl"@);
    } else if f == "SAR"@ {
        assert(f.len() == 3);
    } else if f == "Ca_Mg_ratio"@ {
        assert("Ca_Mg_ratio"@ =~= "Ca"@ + seq!['_'] + "Mg"@ + "_ratio"@);
        lemma_ratio_name(x, y, "Ca"@, "Mg"@);
        assert("Ca/Mg"@ =~= "Ca"@ + seq!['/'] + "Mg"@);
    } else {
        assert("derived_ratio"@.len() == 13);
        assert("coordinate"@.len() == 10);
        assert("measured"@.len() == 8);
        assert(feature_kind(f).0 != "derived_ratio"@);
    }
}

} // verus!
