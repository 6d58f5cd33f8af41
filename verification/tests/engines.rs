use similarity_ts::edit::{base_similarity, tree_edit_distance};
use similarity_ts::funcsim::{compare_functions, CodeUnit};
use similarity_ts::options::{DEFAULT_RENAME_COST, DEFAULT_THRESHOLD, SCALE};
use similarity_ts::pairs::{find_similar_functions, find_similar_types};
use similarity_ts::prefilter::{fingerprint, might_match};
use similarity_ts::tree::AstNode;
use similarity_ts::typesim::{
    compare_type_literal, compare_types, Property, TypeComparisonOptions, TypeDefinition,
    TypeKind, TypeLiteralContext, TypeLiteralDefinition,
};

fn node(kind: u64, label: u64) -> AstNode {
    AstNode { kind, label, start_line: 1, end_line: 1, boundary: false }
}

fn unit(file: &str, name: &str, start: u32, end: u32, body: &[(u64, u64)]) -> CodeUnit {
    CodeUnit {
        file_path: file.as_bytes().to_vec(),
        name: name.as_bytes().to_vec(),
        start_line: start,
        end_line: end,
        params: Vec::new(),
        body: body.iter().map(|&(k, l)| node(k, l)).collect(),
        body_text: Vec::new(),
        token_count: body.len() as u32,
        line_count: end - start + 1,
    }
}

fn prop(name: &str, ty: &str, optional: bool) -> Property {
    Property {
        name: name.as_bytes().to_vec(),
        type_annotation: ty.as_bytes().to_vec(),
        optional,
        readonly: false,
    }
}

fn typedef(file: &str, name: &str, kind: TypeKind, props: Vec<Property>) -> TypeDefinition {
    TypeDefinition {
        file_path: file.as_bytes().to_vec(),
        name: name.as_bytes().to_vec(),
        kind,
        generics: Vec::new(),
        extends: Vec::new(),
        properties: props,
        start_line: 1,
        end_line: 3,
    }
}

fn default_type_options(allow_cross: bool) -> TypeComparisonOptions {
    TypeComparisonOptions {
        allow_cross_kind_comparison: allow_cross,
        structural_weight: 6000,
        naming_weight: 4000,
    }
}

#[test]
fn edit_distance_exact_values() {
    let a = vec![node(1, 1), node(2, 2), node(3, 3)];
    let empty: Vec<AstNode> = Vec::new();
    assert_eq!(tree_edit_distance(&a, &a, DEFAULT_RENAME_COST), 0);
    assert_eq!(tree_edit_distance(&a, &empty, DEFAULT_RENAME_COST), 3 * SCALE);
    // A single relabel costs the rename cost.
    let b = vec![node(1, 1), node(2, 9), node(3, 3)];
    assert_eq!(tree_edit_distance(&a, &b, DEFAULT_RENAME_COST), DEFAULT_RENAME_COST);
    // A change of kind costs a full unit.
    let c = vec![node(1, 1), node(7, 2), node(3, 3)];
    assert_eq!(tree_edit_distance(&a, &c, DEFAULT_RENAME_COST), SCALE);
}

#[test]
fn base_similarity_normalizes() {
    let a = vec![node(1, 1), node(2, 2), node(3, 3), node(4, 4)];
    let b = vec![node(1, 1), node(2, 2), node(3, 3)];
    // One deletion over max size four.
    assert_eq!(base_similarity(&a, &b, DEFAULT_RENAME_COST), (4 * SCALE - SCALE) / 4);
    assert_eq!(base_similarity(&a, &a, DEFAULT_RENAME_COST), SCALE);
}

#[test]
fn function_similarity_symmetric() {
    let a = unit("a.ts", "f", 1, 6, &[(1, 1), (2, 2), (3, 3), (4, 4)]);
    let b = unit("b.ts", "g", 1, 9, &[(1, 1), (2, 5), (9, 9)]);
    let ab = compare_functions(&a, &b, DEFAULT_RENAME_COST, true);
    let ba = compare_functions(&b, &a, DEFAULT_RENAME_COST, true);
    assert_eq!(ab, ba);
    let ab2 = compare_functions(&a, &b, DEFAULT_RENAME_COST, false);
    let ba2 = compare_functions(&b, &a, DEFAULT_RENAME_COST, false);
    assert_eq!(ab2, ba2);
}

#[test]
fn function_similarity_identity() {
    let a = unit("a.ts", "f", 1, 10, &[(1, 1), (2, 2), (3, 3), (4, 4), (5, 5)]);
    assert_eq!(compare_functions(&a, &a, DEFAULT_RENAME_COST, true), SCALE);
    assert_eq!(compare_functions(&a, &a, DEFAULT_RENAME_COST, false), SCALE);
}

#[test]
fn two_identical_ten_line_functions_report_one_pair() {
    // Two identical functions of 10 lines in different files, default
    // threshold and rename cost: exactly one pair at full similarity.
    let body: Vec<(u64, u64)> = (0..10).map(|i| (i as u64 + 1, i as u64 + 1)).collect();
    let a = unit("src/a.ts", "process", 1, 10, &body);
    let b = unit("src/b.ts", "process", 1, 10, &body);
    let units = vec![a, b];
    let pairs = find_similar_functions(&units, DEFAULT_THRESHOLD, DEFAULT_RENAME_COST, true, true);
    assert_eq!(pairs.len(), 1);
    assert_eq!(pairs[0].index1, 0);
    assert_eq!(pairs[0].index2, 1);
    assert_eq!(pairs[0].similarity, SCALE);
}

#[test]
fn size_penalty_keeps_contained_subtree_below_threshold() {
    // A 50-node function against a 5-node function that is an exact
    // subtree of it: similarity stays far below the threshold when the
    // size penalty is enabled.
    let big: Vec<(u64, u64)> = (0..50).map(|i| (i as u64 + 1, 0)).collect();
    let small: Vec<(u64, u64)> = (0..5).map(|i| (i as u64 + 1, 0)).collect();
    let a = unit("a.ts", "big", 1, 50, &big);
    let b = unit("b.ts", "small", 1, 5, &small);
    let with_penalty = compare_functions(&a, &b, DEFAULT_RENAME_COST, true);
    let without_penalty = compare_functions(&a, &b, DEFAULT_RENAME_COST, false);
    // 45 deletions over max size 50: base similarity 0.1.
    assert_eq!(without_penalty, SCALE / 10);
    // The penalty multiplies by 5/50.
    assert_eq!(with_penalty, (SCALE / 10) * (SCALE / 10) / SCALE);
    assert!(with_penalty < DEFAULT_THRESHOLD);
}

#[test]
fn fast_and_exhaustive_modes_agree() {
    let mut units = Vec::new();
    for i in 0..6u64 {
        let body: Vec<(u64, u64)> = (0..8).map(|j| (j as u64 + i, j as u64)).collect();
        units.push(unit("f.ts", "fn", 1, 8, &body));
    }
    let fast = find_similar_functions(&units, 8000, DEFAULT_RENAME_COST, true, true);
    let slow = find_similar_functions(&units, 8000, DEFAULT_RENAME_COST, true, false);
    assert_eq!(fast, slow);
}

#[test]
fn prefilter_accepts_every_comparator_accepted_pair() {
    let a = unit("a.ts", "f", 1, 5, &[(1, 1), (2, 2), (3, 3)]);
    let b = unit("b.ts", "g", 1, 5, &[(1, 1), (2, 2), (9, 9)]);
    let sim = compare_functions(&a, &b, DEFAULT_RENAME_COST, true);
    let threshold = 5000u64;
    if sim >= threshold {
        let fa = fingerprint(&a.body);
        let fb = fingerprint(&b.body);
        assert!(might_match(fa, fb, threshold));
    }
    // Disjoint kinds are allowed to be ruled out.
    let c = unit("c.ts", "h", 1, 5, &[(100, 0), (101, 0)]);
    let fa = fingerprint(&a.body);
    let fc = fingerprint(&c.body);
    assert_eq!(compare_functions(&a, &c, DEFAULT_RENAME_COST, false), 0);
    let _ = might_match(fa, fc, threshold);
}

#[test]
fn threshold_monotone_pair_counts() {
    let mut units = Vec::new();
    for i in 0..5u64 {
        let body: Vec<(u64, u64)> = (0..6).map(|j| (j as u64 + i % 3, 0)).collect();
        units.push(unit("m.ts", "fn", 1, 6, &body));
    }
    let low = find_similar_functions(&units, 3000, DEFAULT_RENAME_COST, true, false);
    let high = find_similar_functions(&units, 9000, DEFAULT_RENAME_COST, true, false);
    assert!(high.len() <= low.len());
}

#[test]
fn cross_kind_comparison_gate() {
    // An interface `{id: string}` and a type alias `{id: string}` at
    // the default threshold and weights: zero pairs unless cross-kind
    // comparison is allowed, then exactly one pair with full
    // structural similarity.
    let i = typedef("a.ts", "User", TypeKind::Interface, vec![prop("id", "string", false)]);
    let t = typedef("b.ts", "Person", TypeKind::TypeAlias, vec![prop("id", "string", false)]);
    let types = vec![i, t];
    let closed = find_similar_types(&types, DEFAULT_THRESHOLD, &default_type_options(false));
    assert_eq!(closed.len(), 0);
    let open = find_similar_types(&types, DEFAULT_THRESHOLD, &default_type_options(true));
    assert_eq!(open.len(), 1);
    assert_eq!(open[0].structural_similarity, SCALE);
}

#[test]
fn type_similarity_symmetric_and_identity() {
    let a = typedef(
        "a.ts",
        "User",
        TypeKind::Interface,
        vec![prop("id", "string", false), prop("name", "string", true)],
    );
    let b = typedef(
        "b.ts",
        "Account",
        TypeKind::Interface,
        vec![prop("id", "number", false), prop("name", "string", true)],
    );
    let opts = default_type_options(true);
    let ab = compare_types(&a, &b, &opts);
    let ba = compare_types(&b, &a, &opts);
    assert_eq!(ab.similarity, ba.similarity);
    assert_eq!(ab.structural_similarity, ba.structural_similarity);
    assert_eq!(ab.naming_similarity, ba.naming_similarity);
    let aa = compare_types(&a, &a, &opts);
    assert_eq!(aa.similarity, SCALE);
    assert_eq!(aa.structural_similarity, SCALE);
    assert_eq!(aa.naming_similarity, SCALE);
}

#[test]
fn weight_sensitivity_on_identical_properties() {
    // Two types identical in properties but differently named: a
    // larger naming weight never shrinks the naming contribution.
    let a = typedef("a.ts", "Alpha", TypeKind::Interface, vec![prop("id", "string", false)]);
    let b = typedef("b.ts", "Omega", TypeKind::Interface, vec![prop("id", "string", false)]);
    let mut last = 0u64;
    for nw in [0u64, 2000, 4000, 6000, 8000, 10000] {
        let opts = TypeComparisonOptions {
            allow_cross_kind_comparison: true,
            structural_weight: 0,
            naming_weight: nw,
        };
        let r = compare_types(&a, &b, &opts);
        let contribution = nw * r.naming_similarity;
        assert!(contribution >= last);
        last = contribution;
    }
}

#[test]
fn differences_record_is_complete() {
    let a = typedef(
        "a.ts",
        "User",
        TypeKind::Interface,
        vec![
            prop("id", "string", false),
            prop("name", "string", false),
            prop("age", "number", false),
            prop("tag", "string", true),
        ],
    );
    let b = typedef(
        "b.ts",
        "User2",
        TypeKind::Interface,
        vec![
            prop("id", "string", false),
            prop("age", "string", false),
            prop("tag", "string", false),
            prop("extra", "bool", false),
        ],
    );
    let r = compare_types(&a, &b, &default_type_options(true));
    assert_eq!(r.differences.missing_properties, vec![b"name".to_vec()]);
    assert_eq!(r.differences.extra_properties, vec![b"extra".to_vec()]);
    assert_eq!(r.differences.type_mismatches.len(), 1);
    assert_eq!(r.differences.type_mismatches[0].property, b"age".to_vec());
    assert_eq!(r.differences.type_mismatches[0].type1, b"number".to_vec());
    assert_eq!(r.differences.type_mismatches[0].type2, b"string".to_vec());
    assert_eq!(r.differences.optionality_differences, vec![b"tag".to_vec()]);
}

#[test]
fn structural_score_penalizes_type_mismatch() {
    // One shared name with a type mismatch earns half credit on each
    // side: (1 + 1) / (2 * 2) of the scale.
    let a = typedef("a.ts", "T", TypeKind::Interface, vec![prop("id", "string", false)]);
    let b = typedef("b.ts", "T", TypeKind::Interface, vec![prop("id", "number", false)]);
    let r = compare_types(&a, &b, &default_type_options(true));
    assert_eq!(r.structural_similarity, SCALE / 2);
}

#[test]
fn type_literal_compared_against_definitions() {
    let lit = TypeLiteralDefinition {
        file_path: b"a.ts".to_vec(),
        name: b"getUser.return".to_vec(),
        context: TypeLiteralContext::FunctionReturn(b"getUser".to_vec()),
        properties: vec![prop("id", "string", false)],
        start_line: 4,
    };
    let def = typedef("b.ts", "User", TypeKind::Interface, vec![prop("id", "string", false)]);
    let r = compare_type_literal(&lit, &def, &default_type_options(true));
    assert_eq!(r.structural_similarity, SCALE);
    let pairs = similarity_ts::pairs::find_similar_type_literals(
        &vec![lit],
        &vec![def],
        5000,
        &default_type_options(true),
    );
    assert_eq!(pairs.len(), 1);
    assert_eq!(pairs[0].literal_index, 0);
    assert_eq!(pairs[0].type_index, 0);
}
