//! Post-extraction filtering and error taxonomy.
//!
//! The front-end parser (an external collaborator) produces the raw
//! units; everything after that point is here: the minimum-size rule,
//! the declaration-kind filter, the name and body-content filters that
//! narrow the candidate set before comparison, the parse-error
//! taxonomy, and line extraction from raw sources for reports.

use crate::funcsim::CodeUnit;
use crate::options::SizeFilter;
use crate::text::{contains_bytes, copy_bytes, is_substring};
use crate::typesim::{names_view, TypeDefinition, TypeKind};
use vstd::prelude::*;

verus! {

/// A failure while extracting units from one file. Fatal only to that
/// file: the file is skipped and the rest of the run proceeds.
#[derive(Debug)]
pub enum ExtractionError {
    /// Malformed source. By convention this sub-kind is suppressed
    /// from user-visible diagnostics, as expected noise on malformed
    /// input.
    Syntax(Vec<u8>),
    /// Any other extraction failure; always surfaced.
    Other(Vec<u8>),
}

/// Whether a diagnostic is shown to the user: syntax errors are
/// suppressed by convention, every other extraction error is surfaced.
pub fn should_surface(e: &ExtractionError) -> (r: bool)
    ensures
        r == !(e is Syntax),
{
    match e {
        ExtractionError::Syntax(_) => false,
        ExtractionError::Other(_) => true,
    }
}

/// Which declaration kinds the type engine considers.
#[derive(Clone, Copy, PartialEq, Eq, Structural, Debug)]
pub enum TypeKindFilter {
    /// Interfaces and type aliases.
    All,
    /// Type aliases only.
    AliasesOnly,
    /// Interfaces only.
    InterfacesOnly,
}

/// Whether a unit meets the minimum-size rule.
pub open spec fn spec_unit_passes_size(u: CodeUnit, f: SizeFilter) -> bool {
    match f {
        SizeFilter::MinLines(l) => u.line_count >= l,
        SizeFilter::MinTokens(t) => u.token_count >= t,
    }
}

/// The units meeting the minimum-size rule, in input order.
pub open spec fn spec_filter_units_by_size(units: Seq<CodeUnit>, f: SizeFilter) -> Seq<CodeUnit>
    decreases units.len(),
{
    if units.len() == 0 {
        Seq::empty()
    } else {
        let rest = spec_filter_units_by_size(units.drop_first(), f);
        if spec_unit_passes_size(units.first(), f) {
            seq![units.first()] + rest
        } else {
            rest
        }
    }
}

/// Applies the minimum-size rule to the extracted units.
pub fn filter_units_by_size(units: Vec<CodeUnit>, f: &SizeFilter) -> (kept: Vec<CodeUnit>)
    ensures
        kept@ == spec_filter_units_by_size(units@, *f),
{
    let ghost orig = units@;
    let mut rest = units;
    let mut kept: Vec<CodeUnit> = Vec::new();
    while rest.len() > 0
        invariant
            spec_filter_units_by_size(orig, *f) == kept@ + spec_filter_units_by_size(rest@, *f),
        decreases rest@.len(),
    {
        let ghost before = rest@;
        let u = rest.remove(0);
        proof {
            assert(u == before.first());
            assert(rest@ =~= before.drop_first());
        }
        let passes = match f {
            SizeFilter::MinLines(l) => u.line_count >= *l,
            SizeFilter::MinTokens(t) => u.token_count >= *t,
        };
        if passes {
            kept.push(u);
            proof {
                assert(kept@ + spec_filter_units_by_size(rest@, *f) =~= spec_filter_units_by_size(
                    orig,
                    *f,
                ));
            }
        }
    }
    proof {
        assert(kept@ + Seq::<CodeUnit>::empty() =~= kept@);
    }
    kept
}

/// Whether a unit's name carries the filter string.
pub open spec fn spec_unit_name_matches(u: CodeUnit, needle: Seq<u8>) -> bool {
    is_substring(u.name@, needle)
}

/// The units whose name carries the filter string, in input order.
pub open spec fn spec_filter_units_by_name(units: Seq<CodeUnit>, needle: Seq<u8>) -> Seq<CodeUnit>
    decreases units.len(),
{
    if units.len() == 0 {
        Seq::empty()
    } else {
        let rest = spec_filter_units_by_name(units.drop_first(), needle);
        if spec_unit_name_matches(units.first(), needle) {
            seq![units.first()] + rest
        } else {
            rest
        }
    }
}

/// Applies the function-name filter, ahead of any comparison.
pub fn filter_units_by_name(units: Vec<CodeUnit>, needle: &Vec<u8>) -> (kept: Vec<CodeUnit>)
    ensures
        kept@ == spec_filter_units_by_name(units@, needle@),
{
    let ghost orig = units@;
    let mut rest = units;
    let mut kept: Vec<CodeUnit> = Vec::new();
    while rest.len() > 0
        invariant
            spec_filter_units_by_name(orig, needle@) == kept@ + spec_filter_units_by_name(
                rest@,
                needle@,
            ),
        decreases rest@.len(),
    {
        let ghost before = rest@;
        let u = rest.remove(0);
        proof {
            assert(u == before.first());
            assert(rest@ =~= before.drop_first());
        }
        if contains_bytes(&u.name, needle) {
            kept.push(u);
            proof {
                assert(kept@ + spec_filter_units_by_name(rest@, needle@)
                    =~= spec_filter_units_by_name(orig, needle@));
            }
        }
    }
    proof {
        assert(kept@ + Seq::<CodeUnit>::empty() =~= kept@);
    }
    kept
}

/// Whether a unit's body text carries the filter string.
pub open spec fn spec_unit_body_matches(u: CodeUnit, needle: Seq<u8>) -> bool {
    is_substring(u.body_text@, needle)
}

/// The units whose body text carries the filter string, in input
/// order.
pub open spec fn spec_filter_units_by_body(units: Seq<CodeUnit>, needle: Seq<u8>) -> Seq<CodeUnit>
    decreases units.len(),
{
    if units.len() == 0 {
        Seq::empty()
    } else {
        let rest = spec_filter_units_by_body(units.drop_first(), needle);
        if spec_unit_body_matches(units.first(), needle) {
            seq![units.first()] + rest
        } else {
            rest
        }
    }
}

/// Applies the body-content filter, ahead of any comparison.
pub fn filter_units_by_body(units: Vec<CodeUnit>, needle: &Vec<u8>) -> (kept: Vec<CodeUnit>)
    ensures
        kept@ == spec_filter_units_by_body(units@, needle@),
{
    let ghost orig = units@;
    let mut rest = units;
    let mut kept: Vec<CodeUnit> = Vec::new();
    while rest.len() > 0
        invariant
            spec_filter_units_by_body(orig, needle@) == kept@ + spec_filter_units_by_body(
                rest@,
                needle@,
            ),
        decreases rest@.len(),
    {
        let ghost before = rest@;
        let u = rest.remove(0);
        proof {
            assert(u == before.first());
            assert(rest@ =~= before.drop_first());
        }
        if contains_bytes(&u.body_text, needle) {
            kept.push(u);
            proof {
                assert(kept@ + spec_filter_units_by_body(rest@, needle@)
                    =~= spec_filter_units_by_body(orig, needle@));
            }
        }
    }
    proof {
        assert(kept@ + Seq::<CodeUnit>::empty() =~= kept@);
    }
    kept
}

/// Whether a declaration passes the kind filter.
pub open spec fn spec_type_passes_kind(t: TypeDefinition, f: TypeKindFilter) -> bool {
    match f {
        TypeKindFilter::All => true,
        TypeKindFilter::AliasesOnly => t.kind == TypeKind::TypeAlias,
        TypeKindFilter::InterfacesOnly => t.kind == TypeKind::Interface,
    }
}

/// The declarations passing the kind filter, in input order.
pub open spec fn spec_filter_types_by_kind(types: Seq<TypeDefinition>, f: TypeKindFilter) -> Seq<
    TypeDefinition,
>
    decreases types.len(),
{
    if types.len() == 0 {
        Seq::empty()
    } else {
        let rest = spec_filter_types_by_kind(types.drop_first(), f);
        if spec_type_passes_kind(types.first(), f) {
            seq![types.first()] + rest
        } else {
            rest
        }
    }
}

/// Applies the declaration-kind filter (all / aliases only /
/// interfaces only) to the extracted types.
pub fn filter_types_by_kind(types: Vec<TypeDefinition>, f: TypeKindFilter) -> (kept: Vec<
    TypeDefinition,
>)
    ensures
        kept@ == spec_filter_types_by_kind(types@, f),
{
    let ghost orig = types@;
    let mut rest = types;
    let mut kept: Vec<TypeDefinition> = Vec::new();
    while rest.len() > 0
        invariant
            spec_filter_types_by_kind(orig, f) == kept@ + spec_filter_types_by_kind(rest@, f),
        decreases rest@.len(),
    {
        let ghost before = rest@;
        let t = rest.remove(0);
        proof {
            assert(t == before.first());
            assert(rest@ =~= before.drop_first());
        }
        let passes = match f {
            TypeKindFilter::All => true,
            TypeKindFilter::AliasesOnly => matches!(t.kind, TypeKind::TypeAlias),
            TypeKindFilter::InterfacesOnly => matches!(t.kind, TypeKind::Interface),
        };
        if passes {
            kept.push(t);
            proof {
                assert(kept@ + spec_filter_types_by_kind(rest@, f) =~= spec_filter_types_by_kind(
                    orig,
                    f,
                ));
            }
        }
    }
    proof {
        assert(kept@ + Seq::<TypeDefinition>::empty() =~= kept@);
    }
    kept
}

/// The index of the first newline byte, or -1 where there is none.
pub open spec fn spec_find_nl(s: Seq<u8>) -> int
    decreases s.len(),
{
    if s.len() == 0 {
        -1
    } else if s.first() == 10 {
        0
    } else {
        let r = spec_find_nl(s.drop_first());
        if r < 0 {
            -1
        } else {
            r + 1
        }
    }
}

/// A line with a trailing carriage return loses it, so that sources
/// with CRLF endings split like LF ones.
pub open spec fn spec_strip_cr(line: Seq<u8>) -> Seq<u8> {
    if line.len() > 0 && line.last() == 13 {
        line.drop_last()
    } else {
        line
    }
}

/// The lines of a byte string: split at newline bytes, trailing
/// carriage returns stripped, and no empty final line after a trailing
/// newline.
pub open spec fn spec_split_lines(s: Seq<u8>) -> Seq<Seq<u8>>
    decreases s.len(),
{
    if s.len() == 0 {
        Seq::empty()
    } else {
        let r = spec_find_nl(s);
        if 0 <= r < s.len() {
            seq![spec_strip_cr(s.subrange(0, r))] + spec_split_lines(
                s.subrange(r + 1, s.len() as int),
            )
        } else {
            seq![spec_strip_cr(s)]
        }
    }
}

/// What `spec_find_nl` finds: the first newline, if any.
proof fn lemma_find_nl(s: Seq<u8>)
    ensures
        spec_find_nl(s) >= 0 ==> 0 <= spec_find_nl(s) < s.len() && s[spec_find_nl(s)] == 10
            && forall|q: int| 0 <= q < spec_find_nl(s) ==> s[q] != 10,
        spec_find_nl(s) < 0 ==> forall|q: int| 0 <= q < s.len() ==> s[q] != 10,
    decreases s.len(),
{
    if s.len() == 0 {
    } else if s.first() == 10 {
    } else {
        let d = s.drop_first();
        lemma_find_nl(d);
        let rd = spec_find_nl(d);
        if rd < 0 {
            assert forall|q: int| 0 <= q < s.len() implies s[q] != 10 by {
                if q > 0 {
                    assert(d[q - 1] == s[q]);
                }
            }
        } else {
            assert(d[rd] == s[rd + 1]);
            assert forall|q: int| 0 <= q < rd + 1 implies s[q] != 10 by {
                if q > 0 {
                    assert(d[q - 1] == s[q]);
                }
            }
        }
    }
}

/// Copies one byte range out of a source.
fn copy_range(v: &Vec<u8>, from: usize, to: usize) -> (r: Vec<u8>)
    requires
        from <= to <= v@.len(),
    ensures
        r@ == v@.subrange(from as int, to as int),
{
    let n = v.len();
    let mut r: Vec<u8> = Vec::new();
    let mut k: usize = from;
    while k < to
        invariant
            from <= k <= to <= n,
            n == v@.len(),
            r@ =~= v@.subrange(from as int, k as int),
        decreases to - k,
    {
        r.push(v[k]);
        proof {
            assert(r@ =~= v@.subrange(from as int, k + 1));
        }
        k += 1;
    }
    r
}

/// One line of the source: the byte range with a trailing carriage
/// return stripped.
fn copy_line(v: &Vec<u8>, from: usize, to: usize) -> (r: Vec<u8>)
    requires
        from <= to <= v@.len(),
    ensures
        r@ == spec_strip_cr(v@.subrange(from as int, to as int)),
{
    let mut line = copy_range(v, from, to);
    if line.len() > 0 && line[line.len() - 1] == 13 {
        line.pop();
    }
    line
}

/// Splits a source into its lines.
pub fn split_lines(code: &Vec<u8>) -> (lines: Vec<Vec<u8>>)
    ensures
        names_view(lines@) == spec_split_lines(code@),
{
    let n = code.len();
    let mut lines: Vec<Vec<u8>> = Vec::new();
    let mut p: usize = 0;
    proof {
        assert(code@.subrange(0, n as int) =~= code@);
    }
    while p < n
        invariant
            p <= n,
            n == code@.len(),
            spec_split_lines(code@) =~= names_view(lines@) + spec_split_lines(
                code@.subrange(p as int, n as int),
            ),
        decreases n - p,
    {
        let ghost remainder = code@.subrange(p as int, n as int);
        let mut q: usize = p;
        while q < n && code[q] != 10
            invariant
                p <= q <= n,
                n == code@.len(),
                forall|t: int| p <= t < q ==> code@[t] != 10,
            decreases n - q,
        {
            q += 1;
        }
        proof {
            lemma_find_nl(remainder);
            assert(forall|t: int|
                0 <= t < remainder.len() ==> remainder[t] == code@[p + t]);
            if q < n {
                assert(remainder[q - p] == 10);
                assert(spec_find_nl(remainder) == q - p);
                assert(remainder.subrange(0, q - p) =~= code@.subrange(p as int, q as int));
                assert(remainder.subrange(q - p + 1, remainder.len() as int) =~= code@.subrange(
                    q + 1,
                    n as int,
                ));
            } else {
                assert(spec_find_nl(remainder) < 0);
            }
        }
        if q < n {
            let line = copy_line(code, p, q);
            lines.push(line);
            proof {
                assert(names_view(lines@) =~= names_view(lines@.drop_last()).push(
                    spec_strip_cr(code@.subrange(p as int, q as int)),
                ));
                assert(spec_split_lines(code@) =~= names_view(lines@) + spec_split_lines(
                    code@.subrange(q + 1, n as int),
                ));
            }
            p = q + 1;
        } else {
            let line = copy_line(code, p, n);
            lines.push(line);
            proof {
                assert(names_view(lines@) =~= names_view(lines@.drop_last()).push(
                    spec_strip_cr(code@.subrange(p as int, n as int)),
                ));
                assert(code@.subrange(n as int, n as int).len() == 0);
                assert(spec_split_lines(code@) =~= names_view(lines@) + spec_split_lines(
                    code@.subrange(n as int, n as int),
                ));
            }
            p = n;
        }
    }
    proof {
        assert(code@.subrange(n as int, n as int).len() == 0);
        assert(names_view(lines@) + Seq::<Seq<u8>>::empty() =~= names_view(lines@));
    }
    lines
}

/// The diagnostic carried by a rejected line range, as ASCII bytes:
/// "Line numbers out of bounds".
pub open spec fn spec_out_of_bounds_msg() -> Seq<u8> {
    seq![
        76u8, 105, 110, 101, 32, 110, 117, 109, 98, 101, 114, 115, 32, 111, 117, 116, 32, 111,
        102, 32, 98, 111, 117, 110, 100, 115,
    ]
}

/// Lines joined with newline bytes.
pub open spec fn spec_join_lines(ls: Seq<Seq<u8>>) -> Seq<u8>
    decreases ls.len(),
{
    if ls.len() == 0 {
        Seq::empty()
    } else if ls.len() == 1 {
        ls.first()
    } else {
        ls.first() + seq![10u8] + spec_join_lines(ls.drop_first())
    }
}

/// Joining distributes over appending one more line.
proof fn lemma_join_push(ls: Seq<Seq<u8>>, l: Seq<u8>)
    requires
        ls.len() > 0,
    ensures
        spec_join_lines(ls.push(l)) == spec_join_lines(ls) + seq![10u8] + l,
    decreases ls.len(),
{
    if ls.len() == 1 {
        assert(ls.push(l).drop_first() =~= seq![l]);
        assert(spec_join_lines(seq![l]) == l);
        assert(ls.push(l).first() == ls.first());
        assert(spec_join_lines(ls.push(l)) =~= spec_join_lines(ls) + seq![10u8] + l);
    } else {
        lemma_join_push(ls.drop_first(), l);
        assert(ls.push(l).drop_first() =~= ls.drop_first().push(l));
        assert(spec_join_lines(ls.push(l)) =~= spec_join_lines(ls) + seq![10u8] + l);
    }
}

/// Extracts the inclusive 1-based line range `[start_line, end_line]`
/// from a raw source, joined with newlines; line numbers past the end
/// of the source are rejected. A `start_line` of zero reads from the
/// first line.
pub fn extract_code_lines(code: &Vec<u8>, start_line: u32, end_line: u32) -> (r: Result<
    Vec<u8>,
    Vec<u8>,
>)
    requires
        start_line as int <= end_line as int + 1,
    ensures
        ({
            let lines = spec_split_lines(code@);
            let lo = if start_line == 0 {
                0int
            } else {
                start_line - 1
            };
            &&& (r is Ok <==> start_line as int <= lines.len() && end_line as int <= lines.len())
            &&& (r is Ok ==> r->Ok_0@ == spec_join_lines(lines.subrange(lo, end_line as int)))
            &&& (r is Err ==> r->Err_0@ == spec_out_of_bounds_msg())
        }),
{
    let lines = split_lines(code);
    let count = lines.len();
    if start_line as usize > count || end_line as usize > count {
        let msg: Vec<u8> = vec![76, 105, 110, 101, 32, 110, 117, 109, 98, 101, 114, 115, 32, 111, 117, 116, 32, 111, 102, 32, 98, 111, 117, 110, 100, 115];
        return Err(msg);
    }
    let lo: usize = if start_line == 0 {
        0
    } else {
        (start_line - 1) as usize
    };
    let hi: usize = end_line as usize;
    let ghost lview = names_view(lines@);
    let mut out: Vec<u8> = Vec::new();
    if lo >= hi {
        proof {
            assert(lview.subrange(lo as int, hi as int).len() == 0);
        }
        return Ok(out);
    }
    out = copy_bytes(&lines[lo]);
    proof {
        assert(lview.subrange(lo as int, lo + 1) =~= seq![lview[lo as int]]);
        assert(spec_join_lines(seq![lview[lo as int]]) == lview[lo as int]);
    }
    let mut k: usize = lo + 1;
    while k < hi
        invariant
            lo < k <= hi <= lines@.len(),
            lview == names_view(lines@),
            out@ == spec_join_lines(lview.subrange(lo as int, k as int)),
        decreases hi - k,
    {
        out.push(10);
        let mut next = copy_bytes(&lines[k]);
        out.append(&mut next);
        proof {
            lemma_join_push(lview.subrange(lo as int, k as int), lview[k as int]);
            assert(lview.subrange(lo as int, k + 1) =~= lview.subrange(lo as int, k as int).push(
                lview[k as int],
            ));
            assert(out@ =~= spec_join_lines(lview.subrange(lo as int, k as int)) + seq![10u8]
                + lview[k as int]);
        }
        k += 1;
    }
    Ok(out)
}

} // verus!
