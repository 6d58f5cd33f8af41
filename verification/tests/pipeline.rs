use similarity_ts::extract::{
    extract_code_lines, filter_types_by_kind, filter_units_by_body, filter_units_by_name,
    filter_units_by_size, should_surface, split_lines, ExtractionError, TypeKindFilter,
};
use similarity_ts::funcsim::CodeUnit;
use similarity_ts::options::{
    resolve_size_filter, validate_analyzers, weights_sum_valid, ConfigError, SizeFilter,
    DEFAULT_MIN_LINES, SCALE,
};
use similarity_ts::overlap::{
    enclosing_function, find_overlaps, window_lines, FuncSpan, OverlapMatch, OverlapOptions,
    SourceFile,
};
use similarity_ts::tree::AstNode;
use similarity_ts::typesim::{Property, TypeDefinition, TypeKind};

fn stmt_node(kind: u64, line: u32) -> AstNode {
    AstNode { kind, label: 0, start_line: line, end_line: line, boundary: true }
}

fn unit(name: &str, lines: u32, tokens: u32, body_text: &str) -> CodeUnit {
    CodeUnit {
        file_path: b"a.ts".to_vec(),
        name: name.as_bytes().to_vec(),
        start_line: 1,
        end_line: lines,
        params: Vec::new(),
        body: Vec::new(),
        body_text: body_text.as_bytes().to_vec(),
        token_count: tokens,
        line_count: lines,
    }
}

fn typedef(name: &str, kind: TypeKind) -> TypeDefinition {
    TypeDefinition {
        file_path: b"a.ts".to_vec(),
        name: name.as_bytes().to_vec(),
        kind,
        generics: Vec::new(),
        extends: Vec::new(),
        properties: vec![Property {
            name: b"id".to_vec(),
            type_annotation: b"string".to_vec(),
            optional: false,
            readonly: false,
        }],
        start_line: 1,
        end_line: 2,
    }
}

#[test]
fn no_analyzer_enabled_is_fatal() {
    assert!(matches!(validate_analyzers(false, false, false), Err(ConfigError::NoAnalyzerEnabled)));
    assert!(validate_analyzers(true, false, false).is_ok());
    assert!(validate_analyzers(false, true, false).is_ok());
    assert!(validate_analyzers(false, false, true).is_ok());
}

#[test]
fn min_tokens_wins_over_min_lines_with_warning() {
    // Both minimums supplied: the token rule applies, the line rule is
    // ignored, and a warning is flagged.
    let (filter, warn) = resolve_size_filter(Some(3), Some(5));
    assert!(matches!(filter, SizeFilter::MinTokens(5)));
    assert!(warn);
    let (filter, warn) = resolve_size_filter(None, Some(7));
    assert!(matches!(filter, SizeFilter::MinTokens(7)));
    assert!(!warn);
    let (filter, warn) = resolve_size_filter(Some(4), None);
    assert!(matches!(filter, SizeFilter::MinLines(4)));
    assert!(!warn);
    let (filter, warn) = resolve_size_filter(None, None);
    assert!(matches!(filter, SizeFilter::MinLines(l) if l == DEFAULT_MIN_LINES));
    assert!(!warn);
}

#[test]
fn weight_sum_warning_condition() {
    assert!(weights_sum_valid(6000, 4000));
    assert!(weights_sum_valid(0, SCALE));
    assert!(!weights_sum_valid(6000, 3000));
    assert!(!weights_sum_valid(9000, 4000));
}

#[test]
fn syntax_errors_are_suppressed_others_surfaced() {
    assert!(!should_surface(&ExtractionError::Syntax(b"Parse errors: bad token".to_vec())));
    assert!(should_surface(&ExtractionError::Other(b"unreadable file".to_vec())));
}

#[test]
fn size_filters_apply_the_resolved_rule() {
    let units = vec![unit("a", 2, 10, ""), unit("b", 5, 2, ""), unit("c", 8, 9, "")];
    let by_lines = filter_units_by_size(units, &SizeFilter::MinLines(3));
    assert_eq!(by_lines.len(), 2);
    assert_eq!(by_lines[0].name, b"b".to_vec());
    assert_eq!(by_lines[1].name, b"c".to_vec());
    let units = vec![unit("a", 2, 10, ""), unit("b", 5, 2, ""), unit("c", 8, 9, "")];
    let by_tokens = filter_units_by_size(units, &SizeFilter::MinTokens(9));
    assert_eq!(by_tokens.len(), 2);
    assert_eq!(by_tokens[0].name, b"a".to_vec());
    assert_eq!(by_tokens[1].name, b"c".to_vec());
}

#[test]
fn name_and_body_filters_narrow_candidates() {
    let units = vec![
        unit("getUser", 5, 5, "return fetch(url)"),
        unit("setUser", 5, 5, "store.write(user)"),
        unit("render", 5, 5, "fetch again"),
    ];
    let by_name = filter_units_by_name(units, &b"User".to_vec());
    assert_eq!(by_name.len(), 2);
    let units = vec![
        unit("getUser", 5, 5, "return fetch(url)"),
        unit("setUser", 5, 5, "store.write(user)"),
        unit("render", 5, 5, "fetch again"),
    ];
    let by_body = filter_units_by_body(units, &b"fetch".to_vec());
    assert_eq!(by_body.len(), 2);
}

#[test]
fn kind_filter_keeps_only_requested_declarations() {
    let types = vec![
        typedef("A", TypeKind::Interface),
        typedef("B", TypeKind::TypeAlias),
        typedef("C", TypeKind::Interface),
    ];
    let aliases = filter_types_by_kind(types, TypeKindFilter::AliasesOnly);
    assert_eq!(aliases.len(), 1);
    assert_eq!(aliases[0].name, b"B".to_vec());
    let types = vec![
        typedef("A", TypeKind::Interface),
        typedef("B", TypeKind::TypeAlias),
        typedef("C", TypeKind::Interface),
    ];
    let interfaces = filter_types_by_kind(types, TypeKindFilter::InterfacesOnly);
    assert_eq!(interfaces.len(), 2);
    let types = vec![typedef("A", TypeKind::Interface), typedef("B", TypeKind::TypeAlias)];
    let all = filter_types_by_kind(types, TypeKindFilter::All);
    assert_eq!(all.len(), 2);
}

#[test]
fn split_lines_handles_lf_crlf_and_trailing_newline() {
    let lines = split_lines(&b"one\ntwo\r\nthree\n".to_vec());
    assert_eq!(lines, vec![b"one".to_vec(), b"two".to_vec(), b"three".to_vec()]);
    let lines = split_lines(&b"".to_vec());
    assert_eq!(lines.len(), 0);
    let lines = split_lines(&b"solo".to_vec());
    assert_eq!(lines, vec![b"solo".to_vec()]);
}

#[test]
fn extract_code_lines_returns_the_requested_range() {
    let code = b"alpha\nbeta\ngamma\ndelta".to_vec();
    let segment = extract_code_lines(&code, 2, 3).unwrap();
    assert_eq!(segment, b"beta\ngamma".to_vec());
    let whole = extract_code_lines(&code, 1, 4).unwrap();
    assert_eq!(whole, b"alpha\nbeta\ngamma\ndelta".to_vec());
    let single = extract_code_lines(&code, 4, 4).unwrap();
    assert_eq!(single, b"delta".to_vec());
}

#[test]
fn extract_code_lines_rejects_out_of_bounds() {
    let code = b"alpha\nbeta".to_vec();
    assert_eq!(
        extract_code_lines(&code, 1, 3).unwrap_err(),
        b"Line numbers out of bounds".to_vec()
    );
    assert_eq!(
        extract_code_lines(&code, 3, 3).unwrap_err(),
        b"Line numbers out of bounds".to_vec()
    );
    assert_eq!(extract_code_lines(&code, 1, 2).unwrap(), b"alpha\nbeta".to_vec());
}

fn overlap_file(path: &str, kinds: &[u64]) -> SourceFile {
    SourceFile {
        path: path.as_bytes().to_vec(),
        nodes: kinds.iter().enumerate().map(|(i, &k)| stmt_node(k, i as u32 + 1)).collect(),
    }
}

fn contains(big: &OverlapMatch, small: &OverlapMatch) -> bool {
    big.source_file == small.source_file
        && big.target_file == small.target_file
        && big.source_start <= small.source_start
        && small.source_start + small.source_node_count
            <= big.source_start + big.source_node_count
        && big.target_start <= small.target_start
        && small.target_start + small.target_node_count
            <= big.target_start + big.target_node_count
        && (small.source_node_count < big.source_node_count
            || small.target_node_count < big.target_node_count)
}

#[test]
fn overlaps_respect_window_bounds_and_tolerance() {
    // Two files sharing an identical twelve-node statement run.
    let kinds: Vec<u64> = (1..=12).collect();
    let files = vec![overlap_file("a.ts", &kinds), overlap_file("b.ts", &kinds)];
    let options = OverlapOptions {
        min_window_size: 8,
        max_window_size: 25,
        threshold: 8700,
        size_tolerance: 2500,
    };
    let matches = find_overlaps(&files, &options);
    assert!(!matches.is_empty());
    for m in &matches {
        assert!(m.source_node_count >= 8 && m.source_node_count <= 25);
        assert!(m.target_node_count >= 8 && m.target_node_count <= 25);
        let mx = m.source_node_count.max(m.target_node_count) as u64;
        let mn = m.source_node_count.min(m.target_node_count) as u64;
        assert!((mx - mn) * SCALE <= options.size_tolerance * mx);
        assert!(m.similarity >= options.threshold);
        assert!(m.source_file < m.target_file);
    }
    // The full shared run is reported at maximal similarity.
    assert!(matches.iter().any(|m| m.source_node_count == 12 && m.similarity == SCALE));
    // No reported overlap is nested inside another reported one.
    for (i, a) in matches.iter().enumerate() {
        for (j, b) in matches.iter().enumerate() {
            if i != j {
                assert!(!contains(a, b));
            }
        }
    }
}

#[test]
fn overlaps_ignore_non_boundary_nodes() {
    let kinds: Vec<u64> = (1..=12).collect();
    let mut f1 = overlap_file("a.ts", &kinds);
    let mut f2 = overlap_file("b.ts", &kinds);
    for n in f1.nodes.iter_mut() {
        n.boundary = false;
    }
    for n in f2.nodes.iter_mut() {
        n.boundary = false;
    }
    let options = OverlapOptions {
        min_window_size: 8,
        max_window_size: 25,
        threshold: 8700,
        size_tolerance: 2500,
    };
    let matches = find_overlaps(&vec![f1, f2], &options);
    assert!(matches.is_empty());
}

#[test]
fn window_attribution_helpers() {
    let kinds: Vec<u64> = (1..=6).collect();
    let file = overlap_file("a.ts", &kinds);
    // Nodes carry one line each here, so a window of three nodes from
    // index 1 spans lines 2 through 4.
    assert_eq!(window_lines(&file.nodes, 1, 3), (2, 4));
    let spans = vec![
        FuncSpan { name: b"first".to_vec(), first_node: 0, last_node: 2 },
        FuncSpan { name: b"second".to_vec(), first_node: 3, last_node: 5 },
    ];
    assert_eq!(enclosing_function(&spans, 1), b"first".to_vec());
    assert_eq!(enclosing_function(&spans, 4), b"second".to_vec());
    assert_eq!(enclosing_function(&spans, 9), Vec::<u8>::new());
}

#[test]
fn extract_code_lines_start_zero_reads_from_first_line() {
    let code = b"alpha\nbeta".to_vec();
    assert_eq!(extract_code_lines(&code, 0, 1).unwrap(), b"alpha".to_vec());
    assert_eq!(extract_code_lines(&code, 0, 0).unwrap(), Vec::<u8>::new());
}
