//! The overlap detection engine.
//!
//! Every file's preorder node sequence is scanned for contiguous
//! windows that begin at a statement boundary and hold between
//! `min_window_size` and `max_window_size` nodes. Windows drawn from
//! two different files are compared with the same edit-distance
//! primitive as whole functions; a pair is a match when its similarity
//! meets the threshold and the two window sizes differ by no more than
//! the fractional `size_tolerance` of the larger.
//!
//! Containment rule: matches are enumerated deterministically (file
//! pairs in index order, windows in start order, larger windows before
//! smaller ones at the same start), and a match is suppressed exactly
//! when an earlier kept match for the same file pair strictly contains
//! both of its windows. `spec_suppress` is that rule, verbatim.

use crate::edit::{base_similarity, spec_base_similarity};
use crate::options::{DEFAULT_RENAME_COST, MAX_NODES, SCALE};
use crate::tree::AstNode;
use vstd::prelude::*;

verus! {

/// Options of the overlap engine.
#[derive(Clone, Copy, Debug)]
pub struct OverlapOptions {
    /// Smallest window, in nodes.
    pub min_window_size: u32,
    /// Largest window, in nodes.
    pub max_window_size: u32,
    /// Similarity threshold, in `[0, SCALE]`.
    pub threshold: u64,
    /// Fractional size tolerance between paired windows.
    pub size_tolerance: u64,
}

impl OverlapOptions {
    /// A usable window range and a fractional tolerance.
    pub open spec fn wf(self) -> bool {
        &&& 1 <= self.min_window_size <= self.max_window_size
        &&& self.max_window_size as usize <= MAX_NODES
        &&& self.size_tolerance <= SCALE
    }
}

/// One parsed file handed to the engine: provenance and its preorder
/// node sequence.
#[derive(Debug)]
pub struct SourceFile {
    /// Path of the file.
    pub path: Vec<u8>,
    /// The file's nodes in preorder.
    pub nodes: Vec<AstNode>,
}

impl SourceFile {
    /// Bounds that keep all distance arithmetic inside `u64`.
    pub open spec fn wf(self) -> bool {
        self.nodes@.len() <= MAX_NODES
    }
}

/// One reported overlap: two windows in two distinct files, by file
/// index, window start (node index) and node count.
#[derive(Clone, Copy, PartialEq, Eq, Structural, Debug)]
pub struct OverlapMatch {
    /// Index of the source file; always less than `target_file`.
    pub source_file: usize,
    /// Index of the target file.
    pub target_file: usize,
    /// First node of the source window.
    pub source_start: usize,
    /// Node count of the source window.
    pub source_node_count: usize,
    /// First node of the target window.
    pub target_start: usize,
    /// Node count of the target window.
    pub target_node_count: usize,
    /// The windows' structural similarity, in `[0, SCALE]`.
    pub similarity: u64,
    /// Dominant syntactic kind: the kind of the source window's first
    /// node.
    pub node_type: u64,
}

/// The candidate windows starting at `s`, largest first: `(s, c)` for
/// `c` from `cmax` down to `cmin`, those that fit within `len`.
pub open spec fn spec_windows_at(len: int, s: int, cmin: int, cmax: int) -> Seq<(usize, usize)>
    decreases cmax + 1 - cmin,
{
    if cmax < cmin {
        Seq::empty()
    } else {
        let rest = spec_windows_at(len, s, cmin, cmax - 1);
        if s + cmax <= len {
            seq![(s as usize, cmax as usize)] + rest
        } else {
            rest
        }
    }
}

/// All candidate windows of a node sequence: starts in order, only at
/// statement boundaries, each start's windows largest first.
pub open spec fn spec_windows(nodes: Seq<AstNode>, s: int, cmin: int, cmax: int) -> Seq<
    (usize, usize),
>
    decreases nodes.len() - s,
{
    if s < 0 || s >= nodes.len() {
        Seq::empty()
    } else {
        let here = if nodes[s].boundary {
            spec_windows_at(nodes.len() as int, s, cmin, cmax)
        } else {
            Seq::empty()
        };
        here + spec_windows(nodes, s + 1, cmin, cmax)
    }
}

/// Whether two window sizes agree within the fractional tolerance:
/// their difference is at most `tolerance / SCALE` of the larger.
pub open spec fn spec_size_within_tolerance(c1: int, c2: int, tolerance: u64) -> bool {
    let mx = if c1 >= c2 {
        c1
    } else {
        c2
    };
    let mn = if c1 <= c2 {
        c1
    } else {
        c2
    };
    (mx - mn) * (SCALE as int) <= (tolerance as int) * mx
}

/// The similarity of two windows: the edit-distance score of the two
/// node subranges, at the default rename cost.
pub open spec fn spec_window_similarity(
    nodes1: Seq<AstNode>,
    w1: (usize, usize),
    nodes2: Seq<AstNode>,
    w2: (usize, usize),
) -> int {
    spec_base_similarity(
        nodes1.subrange(w1.0 as int, w1.0 + w1.1),
        nodes2.subrange(w2.0 as int, w2.0 + w2.1),
        DEFAULT_RENAME_COST,
    )
}

/// Whether a window pair qualifies as a match.
pub open spec fn spec_window_pair_accepted(
    nodes1: Seq<AstNode>,
    w1: (usize, usize),
    nodes2: Seq<AstNode>,
    w2: (usize, usize),
    threshold: u64,
    tolerance: u64,
) -> bool {
    &&& spec_size_within_tolerance(w1.1 as int, w2.1 as int, tolerance)
    &&& spec_window_similarity(nodes1, w1, nodes2, w2) >= threshold
}

/// The match record for one qualifying window pair.
pub open spec fn spec_match_at(
    f1: int,
    nodes1: Seq<AstNode>,
    w1: (usize, usize),
    f2: int,
    nodes2: Seq<AstNode>,
    w2: (usize, usize),
) -> OverlapMatch {
    OverlapMatch {
        source_file: f1 as usize,
        target_file: f2 as usize,
        source_start: w1.0,
        source_node_count: w1.1,
        target_start: w2.0,
        target_node_count: w2.1,
        similarity: spec_window_similarity(nodes1, w1, nodes2, w2) as u64,
        node_type: nodes1[w1.0 as int].kind,
    }
}

/// The matches of source window `wi` against target windows from `wj`
/// on.
pub open spec fn spec_matches_with(
    f1: int,
    nodes1: Seq<AstNode>,
    ws1: Seq<(usize, usize)>,
    f2: int,
    nodes2: Seq<AstNode>,
    ws2: Seq<(usize, usize)>,
    threshold: u64,
    tolerance: u64,
    wi: int,
    wj: int,
) -> Seq<OverlapMatch>
    decreases ws2.len() - wj,
{
    if wj < 0 || wj >= ws2.len() {
        Seq::empty()
    } else {
        let rest = spec_matches_with(
            f1,
            nodes1,
            ws1,
            f2,
            nodes2,
            ws2,
            threshold,
            tolerance,
            wi,
            wj + 1,
        );
        if spec_window_pair_accepted(nodes1, ws1[wi], nodes2, ws2[wj], threshold, tolerance) {
            seq![spec_match_at(f1, nodes1, ws1[wi], f2, nodes2, ws2[wj])] + rest
        } else {
            rest
        }
    }
}

/// The matches of source windows from `wi` on against all target
/// windows.
pub open spec fn spec_matches_from(
    f1: int,
    nodes1: Seq<AstNode>,
    ws1: Seq<(usize, usize)>,
    f2: int,
    nodes2: Seq<AstNode>,
    ws2: Seq<(usize, usize)>,
    threshold: u64,
    tolerance: u64,
    wi: int,
) -> Seq<OverlapMatch>
    decreases ws1.len() - wi,
{
    if wi < 0 || wi >= ws1.len() {
        Seq::empty()
    } else {
        spec_matches_with(f1, nodes1, ws1, f2, nodes2, ws2, threshold, tolerance, wi, 0)
            + spec_matches_from(
            f1,
            nodes1,
            ws1,
            f2,
            nodes2,
            ws2,
            threshold,
            tolerance,
            wi + 1,
        )
    }
}

/// Builds the candidate window list of one file.
pub fn enumerate_windows(nodes: &Vec<AstNode>, min_window: u32, max_window: u32) -> (ws: Vec<
    (usize, usize),
>)
    requires
        1 <= min_window <= max_window,
        max_window as usize <= MAX_NODES,
        nodes@.len() <= MAX_NODES,
    ensures
        ws@ == spec_windows(nodes@, 0, min_window as int, max_window as int),
        windows_bounded(ws@, nodes@.len() as int, min_window as int, max_window as int),
{
    let cmin = min_window as usize;
    let cmax = max_window as usize;
    let n = nodes.len();
    let ghost total = spec_windows(nodes@, 0, cmin as int, cmax as int);
    proof {
        lemma_windows_bounds(nodes@, 0, cmin as int, cmax as int);
    }
    let mut ws: Vec<(usize, usize)> = Vec::new();
    let mut s: usize = 0;
    while s < n
        invariant
            s <= n,
            n == nodes@.len() <= MAX_NODES,
            1 <= cmin <= cmax,
            cmax <= MAX_NODES,
            ws@ + spec_windows(nodes@, s as int, cmin as int, cmax as int) == total,
        decreases n - s,
    {
        if nodes[s].boundary {
            let mut c: usize = cmax;
            while c >= cmin
                invariant
                    cmin >= 1,
                    c <= cmax,
                    cmax <= MAX_NODES,
                    s < n,
                    n == nodes@.len() <= MAX_NODES,
                    ws@ + spec_windows_at(n as int, s as int, cmin as int, c as int)
                        + spec_windows(nodes@, s + 1, cmin as int, cmax as int) == total,
                decreases c,
            {
                let ghost at_c = spec_windows_at(n as int, s as int, cmin as int, c as int);
                let ghost at_c1 = spec_windows_at(n as int, s as int, cmin as int, c - 1);
                if s + c <= n {
                    ws.push((s, c));
                    proof {
                        assert(at_c == seq![(s, c)] + at_c1);
                        assert(ws@ + at_c1 + spec_windows(nodes@, s + 1, cmin as int, cmax as int)
                            =~= total);
                    }
                } else {
                    proof {
                        assert(at_c == at_c1);
                    }
                }
                c -= 1;
            }
            proof {
                assert(spec_windows_at(n as int, s as int, cmin as int, cmin - 1)
                    == Seq::<(usize, usize)>::empty());
                assert(ws@ + spec_windows(nodes@, s + 1, cmin as int, cmax as int) =~= ws@
                    + spec_windows_at(n as int, s as int, cmin as int, cmin - 1) + spec_windows(
                    nodes@,
                    s + 1,
                    cmin as int,
                    cmax as int,
                ));
            }
        } else {
            proof {
                assert(Seq::<(usize, usize)>::empty() + spec_windows(
                    nodes@,
                    s + 1,
                    cmin as int,
                    cmax as int,
                ) =~= spec_windows(nodes@, s + 1, cmin as int, cmax as int));
            }
        }
        s += 1;
    }
    proof {
        assert(spec_windows(nodes@, n as int, cmin as int, cmax as int) == Seq::<
            (usize, usize),
        >::empty());
        assert(ws@ + Seq::<(usize, usize)>::empty() =~= ws@);
        lemma_windows_bounds(nodes@, 0, cmin as int, cmax as int);
    }
    ws
}

/// All windows of a list respect the size bounds and fit within
/// `len` nodes.
pub open spec fn windows_bounded(ws: Seq<(usize, usize)>, len: int, cmin: int, cmax: int) -> bool {
    forall|k: int|
        0 <= k < ws.len() ==> cmin <= (#[trigger] ws[k]).1 <= cmax && ws[k].0 + ws[k].1 <= len
}

/// Every enumerated window respects the size bounds and fits in the
/// file.
proof fn lemma_windows_at_bounds(len: int, s: int, cmin: int, cmax: int)
    requires
        0 <= s,
        1 <= cmin,
        len <= MAX_NODES,
    ensures
        windows_bounded(spec_windows_at(len, s, cmin, cmax), len, cmin, cmax),
    decreases cmax + 1 - cmin,
{
    if cmax < cmin {
    } else {
        lemma_windows_at_bounds(len, s, cmin, cmax - 1);
        let rest = spec_windows_at(len, s, cmin, cmax - 1);
        let ws = spec_windows_at(len, s, cmin, cmax);
        if s + cmax <= len {
            assert forall|k: int|
                0 <= k < ws.len() implies cmin <= (#[trigger] ws[k]).1 <= cmax && ws[k].0 + ws[k].1
                <= len by {
                if k == 0 {
                } else {
                    assert(ws[k] == rest[k - 1]);
                }
            }
        }
    }
}

/// Bounds for the whole window list.
proof fn lemma_windows_bounds(nodes: Seq<AstNode>, s: int, cmin: int, cmax: int)
    requires
        1 <= cmin,
        nodes.len() <= MAX_NODES,
    ensures
        windows_bounded(spec_windows(nodes, s, cmin, cmax), nodes.len() as int, cmin, cmax),
    decreases nodes.len() - s,
{
    if s < 0 || s >= nodes.len() {
    } else {
        lemma_windows_at_bounds(nodes.len() as int, s, cmin, cmax);
        lemma_windows_bounds(nodes, s + 1, cmin, cmax);
        let here = if nodes[s].boundary {
            spec_windows_at(nodes.len() as int, s, cmin, cmax)
        } else {
            Seq::<(usize, usize)>::empty()
        };
        let rest = spec_windows(nodes, s + 1, cmin, cmax);
        let ws = spec_windows(nodes, s, cmin, cmax);
        assert forall|k: int|
            0 <= k < ws.len() implies cmin <= (#[trigger] ws[k]).1 <= cmax && ws[k].0 + ws[k].1
            <= nodes.len() by {
            if k < here.len() {
                assert(ws[k] == here[k]);
            } else {
                assert(ws[k] == rest[k - here.len()]);
            }
        }
    }
}

/// Copies one window out of a file's node sequence.
fn copy_window(nodes: &Vec<AstNode>, start: usize, count: usize) -> (w: Vec<AstNode>)
    requires
        start + count <= nodes@.len(),
    ensures
        w@ == nodes@.subrange(start as int, start + count),
{
    let n = nodes.len();
    let mut w: Vec<AstNode> = Vec::new();
    let mut k: usize = 0;
    while k < count
        invariant
            k <= count,
            n == nodes@.len(),
            start + count <= n,
            w@ =~= nodes@.subrange(start as int, start + k),
        decreases count - k,
    {
        w.push(nodes[start + k]);
        proof {
            assert(w@ =~= nodes@.subrange(start as int, start + k + 1));
        }
        k += 1;
    }
    w
}

/// Whether two window sizes agree within the fractional tolerance.
fn size_within_tolerance(c1: usize, c2: usize, tolerance: u64) -> (r: bool)
    requires
        c1 <= MAX_NODES,
        c2 <= MAX_NODES,
        tolerance <= SCALE,
    ensures
        r == spec_size_within_tolerance(c1 as int, c2 as int, tolerance),
{
    let mx = if c1 >= c2 {
        c1
    } else {
        c2
    };
    let mn = if c1 <= c2 {
        c1
    } else {
        c2
    };
    proof {
        vstd::arithmetic::mul::lemma_mul_inequality(tolerance as int, SCALE as int, mx as int);
    }
    ((mx - mn) as u64) * SCALE <= tolerance * (mx as u64)
}

/// Whether a reported match lies within the engine's bounds: window
/// sizes inside `[min_w, max_w]`, sizes within tolerance of each
/// other, and similarity at or above the threshold.
pub open spec fn match_within_options(
    m: OverlapMatch,
    min_w: u32,
    max_w: u32,
    threshold: u64,
    tolerance: u64,
) -> bool {
    &&& m.source_file < m.target_file
    &&& min_w as int <= m.source_node_count as int <= max_w as int
    &&& min_w as int <= m.target_node_count as int <= max_w as int
    &&& m.source_start + m.source_node_count <= MAX_NODES
    &&& m.target_start + m.target_node_count <= MAX_NODES
    &&& spec_size_within_tolerance(m.source_node_count as int, m.target_node_count as int, tolerance)
    &&& m.similarity >= threshold
}

/// Scans one ordered file pair: every qualifying window pair, in
/// enumeration order.
fn scan_pair(
    f1: usize,
    nodes1: &Vec<AstNode>,
    ws1: &Vec<(usize, usize)>,
    f2: usize,
    nodes2: &Vec<AstNode>,
    ws2: &Vec<(usize, usize)>,
    min_w: u32,
    max_w: u32,
    threshold: u64,
    tolerance: u64,
) -> (out: Vec<OverlapMatch>)
    requires
        f1 < f2,
        nodes1@.len() <= MAX_NODES,
        nodes2@.len() <= MAX_NODES,
        1 <= min_w,
        max_w as usize <= MAX_NODES,
        tolerance <= SCALE,
        windows_bounded(ws1@, nodes1@.len() as int, min_w as int, max_w as int),
        windows_bounded(ws2@, nodes2@.len() as int, min_w as int, max_w as int),
    ensures
        out@ == spec_matches_from(
            f1 as int,
            nodes1@,
            ws1@,
            f2 as int,
            nodes2@,
            ws2@,
            threshold,
            tolerance,
            0,
        ),
        forall|k: int|
            0 <= k < out@.len() ==> match_within_options(
                #[trigger] out@[k],
                min_w,
                max_w,
                threshold,
                tolerance,
            ) && out@[k].source_file == f1 && out@[k].target_file == f2 && out@[k].source_start
                + out@[k].source_node_count <= nodes1@.len() && out@[k].target_start
                + out@[k].target_node_count <= nodes2@.len(),
{
    let ghost total = spec_matches_from(
        f1 as int,
        nodes1@,
        ws1@,
        f2 as int,
        nodes2@,
        ws2@,
        threshold,
        tolerance,
        0,
    );
    let n1 = ws1.len();
    let n2 = ws2.len();
    let mut out: Vec<OverlapMatch> = Vec::new();
    let mut wi: usize = 0;
    while wi < n1
        invariant
            wi <= n1,
            f1 < f2,
            1 <= min_w,
            n1 == ws1@.len(),
            n2 == ws2@.len(),
            nodes1@.len() <= MAX_NODES,
            nodes2@.len() <= MAX_NODES,
            max_w as usize <= MAX_NODES,
            tolerance <= SCALE,
            windows_bounded(ws1@, nodes1@.len() as int, min_w as int, max_w as int),
            windows_bounded(ws2@, nodes2@.len() as int, min_w as int, max_w as int),
            out@ + spec_matches_from(
                f1 as int,
                nodes1@,
                ws1@,
                f2 as int,
                nodes2@,
                ws2@,
                threshold,
                tolerance,
                wi as int,
            ) == total,
            forall|k: int|
                0 <= k < out@.len() ==> match_within_options(
                    #[trigger] out@[k],
                    min_w,
                    max_w,
                    threshold,
                    tolerance,
                ) && out@[k].source_file == f1 && out@[k].target_file == f2 && out@[k].source_start
                    + out@[k].source_node_count <= nodes1@.len() && out@[k].target_start
                    + out@[k].target_node_count <= nodes2@.len(),
        decreases n1 - wi,
    {
        let mut wj: usize = 0;
        while wj < n2
            invariant
                wi < n1,
                wj <= n2,
                f1 < f2,
                1 <= min_w,
                n1 == ws1@.len(),
                n2 == ws2@.len(),
                nodes1@.len() <= MAX_NODES,
                nodes2@.len() <= MAX_NODES,
                max_w as usize <= MAX_NODES,
                tolerance <= SCALE,
                windows_bounded(ws1@, nodes1@.len() as int, min_w as int, max_w as int),
                windows_bounded(ws2@, nodes2@.len() as int, min_w as int, max_w as int),
                out@ + spec_matches_with(
                    f1 as int,
                    nodes1@,
                    ws1@,
                    f2 as int,
                    nodes2@,
                    ws2@,
                    threshold,
                    tolerance,
                    wi as int,
                    wj as int,
                ) + spec_matches_from(
                    f1 as int,
                    nodes1@,
                    ws1@,
                    f2 as int,
                    nodes2@,
                    ws2@,
                    threshold,
                    tolerance,
                    wi + 1,
                ) == total,
                forall|k: int|
                    0 <= k < out@.len() ==> match_within_options(
                        #[trigger] out@[k],
                        min_w,
                        max_w,
                        threshold,
                        tolerance,
                    ) && out@[k].source_file == f1 && out@[k].target_file == f2
                        && out@[k].source_start + out@[k].source_node_count <= nodes1@.len()
                        && out@[k].target_start + out@[k].target_node_count <= nodes2@.len(),
            decreases n2 - wj,
        {
            let ghost with_j = spec_matches_with(
                f1 as int,
                nodes1@,
                ws1@,
                f2 as int,
                nodes2@,
                ws2@,
                threshold,
                tolerance,
                wi as int,
                wj as int,
            );
            let ghost with_j1 = spec_matches_with(
                f1 as int,
                nodes1@,
                ws1@,
                f2 as int,
                nodes2@,
                ws2@,
                threshold,
                tolerance,
                wi as int,
                wj + 1,
            );
            let ghost tail = spec_matches_from(
                f1 as int,
                nodes1@,
                ws1@,
                f2 as int,
                nodes2@,
                ws2@,
                threshold,
                tolerance,
                wi + 1,
            );
            let (s1, c1) = ws1[wi];
            let (s2, c2) = ws2[wj];
            proof {
                assert((s1, c1) == ws1@[wi as int]);
                assert((s2, c2) == ws2@[wj as int]);
                assert(min_w as int <= c1 as int <= max_w as int && s1 + c1 <= nodes1@.len());
                assert(min_w as int <= c2 as int <= max_w as int && s2 + c2 <= nodes2@.len());
            }
            if size_within_tolerance(c1, c2, tolerance) {
                let wa = copy_window(nodes1, s1, c1);
                let wb = copy_window(nodes2, s2, c2);
                let sim = base_similarity(&wa, &wb, DEFAULT_RENAME_COST);
                if sim >= threshold {
                    out.push(
                        OverlapMatch {
                            source_file: f1,
                            target_file: f2,
                            source_start: s1,
                            source_node_count: c1,
                            target_start: s2,
                            target_node_count: c2,
                            similarity: sim,
                            node_type: nodes1[s1].kind,
                        },
                    );
                    proof {
                        assert(with_j == seq![
                            spec_match_at(
                                f1 as int,
                                nodes1@,
                                ws1@[wi as int],
                                f2 as int,
                                nodes2@,
                                ws2@[wj as int],
                            ),
                        ] + with_j1);
                        assert(out@ + with_j1 + tail =~= total);
                    }
                } else {
                    proof {
                        assert(with_j == with_j1);
                    }
                }
            } else {
                proof {
                    assert(with_j == with_j1);
                }
            }
            wj += 1;
        }
        proof {
            assert(out@ + spec_matches_from(
                f1 as int,
                nodes1@,
                ws1@,
                f2 as int,
                nodes2@,
                ws2@,
                threshold,
                tolerance,
                wi + 1,
            ) =~= out@ + spec_matches_with(
                f1 as int,
                nodes1@,
                ws1@,
                f2 as int,
                nodes2@,
                ws2@,
                threshold,
                tolerance,
                wi as int,
                n2 as int,
            ) + spec_matches_from(
                f1 as int,
                nodes1@,
                ws1@,
                f2 as int,
                nodes2@,
                ws2@,
                threshold,
                tolerance,
                wi + 1,
            ));
        }
        wi += 1;
    }
    proof {
        assert(out@ + Seq::<OverlapMatch>::empty() =~= out@);
    }
    out
}

/// Strict containment of one match in another: same file pair, both
/// windows nested, and at least one window strictly smaller.
pub open spec fn spec_contains_match(big: OverlapMatch, small: OverlapMatch) -> bool {
    &&& big.source_file == small.source_file
    &&& big.target_file == small.target_file
    &&& big.source_start <= small.source_start
    &&& small.source_start + small.source_node_count <= big.source_start + big.source_node_count
    &&& big.target_start <= small.target_start
    &&& small.target_start + small.target_node_count <= big.target_start + big.target_node_count
    &&& (small.source_node_count < big.source_node_count || small.target_node_count
        < big.target_node_count)
}

/// Whether a match is strictly contained in any already-kept match.
pub open spec fn spec_contained_in_any(kept: Seq<OverlapMatch>, m: OverlapMatch) -> bool {
    exists|k: int| 0 <= k < kept.len() && spec_contains_match(kept[k], m)
}

/// The containment-suppression rule, applied to the matches in
/// enumeration order: a match is dropped exactly when an earlier kept
/// match strictly contains it.
pub open spec fn spec_suppress_rec(ms: Seq<OverlapMatch>, i: int, kept: Seq<OverlapMatch>) -> Seq<
    OverlapMatch,
>
    decreases ms.len() - i,
{
    if i < 0 || i >= ms.len() {
        kept
    } else {
        spec_suppress_rec(
            ms,
            i + 1,
            if spec_contained_in_any(kept, ms[i]) {
                kept
            } else {
                kept.push(ms[i])
            },
        )
    }
}

/// The suppressed form of a match list.
pub open spec fn spec_suppress(ms: Seq<OverlapMatch>) -> Seq<OverlapMatch> {
    spec_suppress_rec(ms, 0, Seq::empty())
}

/// Whether a kept match strictly contains `m`.
fn contained_in_any(kept: &Vec<OverlapMatch>, m: &OverlapMatch) -> (r: bool)
    requires
        m.source_start + m.source_node_count <= MAX_NODES,
        m.target_start + m.target_node_count <= MAX_NODES,
        forall|q: int|
            0 <= q < kept@.len() ==> (#[trigger] kept@[q]).source_start
                + kept@[q].source_node_count <= MAX_NODES && kept@[q].target_start
                + kept@[q].target_node_count <= MAX_NODES,
    ensures
        r == spec_contained_in_any(kept@, *m),
{
    let mut k: usize = 0;
    while k < kept.len()
        invariant
            k <= kept@.len(),
            m.source_start + m.source_node_count <= MAX_NODES,
            m.target_start + m.target_node_count <= MAX_NODES,
            forall|q: int|
                0 <= q < kept@.len() ==> (#[trigger] kept@[q]).source_start
                    + kept@[q].source_node_count <= MAX_NODES && kept@[q].target_start
                    + kept@[q].target_node_count <= MAX_NODES,
            forall|q: int| 0 <= q < k ==> !spec_contains_match(#[trigger] kept@[q], *m),
        decreases kept@.len() - k,
    {
        let b = kept[k];
        if b.source_file == m.source_file && b.target_file == m.target_file && b.source_start
            <= m.source_start && m.source_start + m.source_node_count <= b.source_start
            + b.source_node_count && b.target_start <= m.target_start && m.target_start
            + m.target_node_count <= b.target_start + b.target_node_count && (m.source_node_count
            < b.source_node_count || m.target_node_count < b.target_node_count) {
            return true;
        }
        k += 1;
    }
    false
}

/// Applies the containment-suppression rule.
fn suppress_contained(ms: &Vec<OverlapMatch>) -> (out: Vec<OverlapMatch>)
    requires
        forall|k: int|
            0 <= k < ms@.len() ==> (#[trigger] ms@[k]).source_start + ms@[k].source_node_count
                <= MAX_NODES && ms@[k].target_start + ms@[k].target_node_count <= MAX_NODES,
    ensures
        out@ == spec_suppress(ms@),
        forall|k: int| 0 <= k < out@.len() ==> ms@.contains(#[trigger] out@[k]),
{
    let n = ms.len();
    let mut out: Vec<OverlapMatch> = Vec::new();
    let mut i: usize = 0;
    while i < n
        invariant
            i <= n,
            n == ms@.len(),
            forall|k: int|
                0 <= k < ms@.len() ==> (#[trigger] ms@[k]).source_start + ms@[k].source_node_count
                    <= MAX_NODES && ms@[k].target_start + ms@[k].target_node_count <= MAX_NODES,
            forall|k: int| 0 <= k < out@.len() ==> ms@.contains(#[trigger] out@[k]),
            spec_suppress_rec(ms@, i as int, out@) == spec_suppress(ms@),
        decreases n - i,
    {
        let m = ms[i];
        proof {
            assert(m == ms@[i as int]);
            assert forall|k: int|
                0 <= k < out@.len() implies (#[trigger] out@[k]).source_start
                + out@[k].source_node_count <= MAX_NODES && out@[k].target_start
                + out@[k].target_node_count <= MAX_NODES by {
                let j = choose|j: int| 0 <= j < ms@.len() && ms@[j] == out@[k];
            }
        }
        if !contained_in_any(&out, &m) {
            out.push(m);
            proof {
                assert(ms@[i as int] == m);
                assert(ms@.contains(m));
            }
        }
        i += 1;
    }
    out
}

/// Bounds survive suppression: every kept match is one of the scanned
/// matches, so it inherits their window bounds.
proof fn lemma_overlap_bounds_carry(
    out: Seq<OverlapMatch>,
    ms: Seq<OverlapMatch>,
    min_w: u32,
    max_w: u32,
    threshold: u64,
    tolerance: u64,
)
    requires
        forall|k: int|
            0 <= k < ms.len() ==> match_within_options(
                #[trigger] ms[k],
                min_w,
                max_w,
                threshold,
                tolerance,
            ),
        forall|k: int| 0 <= k < out.len() ==> ms.contains(#[trigger] out[k]),
    ensures
        forall|k: int|
            0 <= k < out.len() ==> match_within_options(
                #[trigger] out[k],
                min_w,
                max_w,
                threshold,
                tolerance,
            ),
{
    assert forall|k: int|
        0 <= k < out.len() implies match_within_options(
        #[trigger] out[k],
        min_w,
        max_w,
        threshold,
        tolerance,
    ) by {
        let j = choose|j: int| 0 <= j < ms.len() && ms[j] == out[k];
    }
}

/// The matches of file `f1` against files from `f2` on.
pub open spec fn spec_overlaps_with(
    files: Seq<SourceFile>,
    min_w: u32,
    max_w: u32,
    threshold: u64,
    tolerance: u64,
    f1: int,
    f2: int,
) -> Seq<OverlapMatch>
    decreases files.len() - f2,
{
    if f2 < 0 || f2 >= files.len() {
        Seq::empty()
    } else {
        spec_matches_from(
            f1,
            files[f1].nodes@,
            spec_windows(files[f1].nodes@, 0, min_w as int, max_w as int),
            f2,
            files[f2].nodes@,
            spec_windows(files[f2].nodes@, 0, min_w as int, max_w as int),
            threshold,
            tolerance,
            0,
        ) + spec_overlaps_with(files, min_w, max_w, threshold, tolerance, f1, f2 + 1)
    }
}

/// The matches of all ordered file pairs with first index at least
/// `f1`.
pub open spec fn spec_overlaps_from(
    files: Seq<SourceFile>,
    min_w: u32,
    max_w: u32,
    threshold: u64,
    tolerance: u64,
    f1: int,
) -> Seq<OverlapMatch>
    decreases files.len() - f1,
{
    if f1 < 0 || f1 >= files.len() {
        Seq::empty()
    } else {
        spec_overlaps_with(files, min_w, max_w, threshold, tolerance, f1, f1 + 1)
            + spec_overlaps_from(files, min_w, max_w, threshold, tolerance, f1 + 1)
    }
}

/// Every qualifying window pair across every ordered file pair, in
/// deterministic enumeration order, before suppression.
pub open spec fn spec_all_overlaps(
    files: Seq<SourceFile>,
    min_w: u32,
    max_w: u32,
    threshold: u64,
    tolerance: u64,
) -> Seq<OverlapMatch> {
    spec_overlaps_from(files, min_w, max_w, threshold, tolerance, 0)
}

/// Finds all overlapping windows across distinct files: the
/// deterministic scan of every ordered file pair, with nested matches
/// suppressed by the containment rule. Every reported match respects
/// the window bounds, the size tolerance and the threshold.
pub fn find_overlaps(files: &Vec<SourceFile>, options: &OverlapOptions) -> (out: Vec<OverlapMatch>)
    requires
        options.wf(),
        forall|k: int| 0 <= k < files@.len() ==> (#[trigger] files@[k]).wf(),
    ensures
        out@ == spec_suppress(
            spec_all_overlaps(
                files@,
                options.min_window_size,
                options.max_window_size,
                options.threshold,
                options.size_tolerance,
            ),
        ),
        forall|k: int|
            0 <= k < out@.len() ==> match_within_options(
                #[trigger] out@[k],
                options.min_window_size,
                options.max_window_size,
                options.threshold,
                options.size_tolerance,
            ),
        forall|k: int|
            0 <= k < out@.len() ==> (#[trigger] out@[k]).source_file < out@[k].target_file
                < files@.len() && out@[k].source_start + out@[k].source_node_count <= files@[out@[k].source_file as int].nodes@.len()
                && out@[k].target_start + out@[k].target_node_count <= files@[out@[k].target_file as int].nodes@.len(),
{
    let min_w = options.min_window_size;
    let max_w = options.max_window_size;
    let threshold = options.threshold;
    let tolerance = options.size_tolerance;
    let ghost total = spec_all_overlaps(files@, min_w, max_w, threshold, tolerance);
    let n = files.len();
    let mut wss: Vec<Vec<(usize, usize)>> = Vec::new();
    let mut k: usize = 0;
    while k < n
        invariant
            k <= n,
            n == files@.len(),
            options.wf(),
            min_w == options.min_window_size,
            max_w == options.max_window_size,
            forall|q: int| 0 <= q < n ==> (#[trigger] files@[q]).wf(),
            wss@.len() == k,
            forall|q: int|
                0 <= q < k ==> (#[trigger] wss@[q])@ == spec_windows(
                    files@[q].nodes@,
                    0,
                    min_w as int,
                    max_w as int,
                ) && windows_bounded(
                    wss@[q]@,
                    files@[q].nodes@.len() as int,
                    min_w as int,
                    max_w as int,
                ),
        decreases n - k,
    {
        let ws = enumerate_windows(&files[k].nodes, min_w, max_w);
        wss.push(ws);
        k += 1;
    }
    let mut scanned: Vec<OverlapMatch> = Vec::new();
    let mut f1: usize = 0;
    while f1 < n
        invariant
            f1 <= n,
            n == files@.len(),
            options.wf(),
            min_w == options.min_window_size,
            max_w == options.max_window_size,
            threshold == options.threshold,
            tolerance == options.size_tolerance,
            forall|q: int| 0 <= q < n ==> (#[trigger] files@[q]).wf(),
            wss@.len() == n,
            forall|q: int|
                0 <= q < n ==> (#[trigger] wss@[q])@ == spec_windows(
                    files@[q].nodes@,
                    0,
                    min_w as int,
                    max_w as int,
                ) && windows_bounded(
                    wss@[q]@,
                    files@[q].nodes@.len() as int,
                    min_w as int,
                    max_w as int,
                ),
            scanned@ + spec_overlaps_from(files@, min_w, max_w, threshold, tolerance, f1 as int)
                == total,
            forall|q: int|
                0 <= q < scanned@.len() ==> match_within_options(
                    #[trigger] scanned@[q],
                    min_w,
                    max_w,
                    threshold,
                    tolerance,
                ),
            forall|q: int|
                0 <= q < scanned@.len() ==> (#[trigger] scanned@[q]).source_file
                    < scanned@[q].target_file < n && scanned@[q].source_start
                    + scanned@[q].source_node_count <= files@[scanned@[q].source_file as int].nodes@.len()
                    && scanned@[q].target_start + scanned@[q].target_node_count <= files@[scanned@[q].target_file as int].nodes@.len(),
        decreases n - f1,
    {
        let mut f2: usize = f1 + 1;
        while f2 < n
            invariant
                f1 < f2 <= n,
                f1 < n,
                n == files@.len(),
                options.wf(),
                min_w == options.min_window_size,
                max_w == options.max_window_size,
                threshold == options.threshold,
                tolerance == options.size_tolerance,
                forall|q: int| 0 <= q < n ==> (#[trigger] files@[q]).wf(),
                wss@.len() == n,
                forall|q: int|
                    0 <= q < n ==> (#[trigger] wss@[q])@ == spec_windows(
                        files@[q].nodes@,
                        0,
                        min_w as int,
                        max_w as int,
                    ) && windows_bounded(
                        wss@[q]@,
                        files@[q].nodes@.len() as int,
                        min_w as int,
                        max_w as int,
                    ),
                scanned@ + spec_overlaps_with(
                    files@,
                    min_w,
                    max_w,
                    threshold,
                    tolerance,
                    f1 as int,
                    f2 as int,
                ) + spec_overlaps_from(files@, min_w, max_w, threshold, tolerance, f1 + 1)
                    == total,
                forall|q: int|
                    0 <= q < scanned@.len() ==> match_within_options(
                        #[trigger] scanned@[q],
                        min_w,
                        max_w,
                        threshold,
                        tolerance,
                    ),
                forall|q: int|
                    0 <= q < scanned@.len() ==> (#[trigger] scanned@[q]).source_file
                        < scanned@[q].target_file < n && scanned@[q].source_start
                        + scanned@[q].source_node_count <= files@[scanned@[q].source_file as int].nodes@.len()
                        && scanned@[q].target_start + scanned@[q].target_node_count <= files@[scanned@[q].target_file as int].nodes@.len(),
            decreases n - f2,
        {
            let ghost with_f = spec_overlaps_with(
                files@,
                min_w,
                max_w,
                threshold,
                tolerance,
                f1 as int,
                f2 as int,
            );
            let ghost with_f1 = spec_overlaps_with(
                files@,
                min_w,
                max_w,
                threshold,
                tolerance,
                f1 as int,
                f2 + 1,
            );
            let ghost tail = spec_overlaps_from(files@, min_w, max_w, threshold, tolerance, f1 + 1);
            let mut found = scan_pair(
                f1,
                &files[f1].nodes,
                &wss[f1],
                f2,
                &files[f2].nodes,
                &wss[f2],
                min_w,
                max_w,
                threshold,
                tolerance,
            );
            proof {
                assert(with_f == found@ + with_f1);
            }
            scanned.append(&mut found);
            proof {
                assert(scanned@ + with_f1 + tail =~= total);
            }
            f2 += 1;
        }
        proof {
            assert(scanned@ + spec_overlaps_from(files@, min_w, max_w, threshold, tolerance, f1 + 1)
                =~= scanned@ + spec_overlaps_with(
                files@,
                min_w,
                max_w,
                threshold,
                tolerance,
                f1 as int,
                n as int,
            ) + spec_overlaps_from(files@, min_w, max_w, threshold, tolerance, f1 + 1));
        }
        f1 += 1;
    }
    proof {
        assert(scanned@ + Seq::<OverlapMatch>::empty() =~= scanned@);
    }
    proof {
        assert forall|q: int|
            0 <= q < scanned@.len() implies (#[trigger] scanned@[q]).source_start
            + scanned@[q].source_node_count <= MAX_NODES && scanned@[q].target_start
            + scanned@[q].target_node_count <= MAX_NODES by {
            assert(match_within_options(scanned@[q], min_w, max_w, threshold, tolerance));
        }
    }
    let out = suppress_contained(&scanned);
    proof {
        lemma_overlap_bounds_carry(out@, scanned@, min_w, max_w, threshold, tolerance);
        assert forall|k: int|
            0 <= k < out@.len() implies (#[trigger] out@[k]).source_file < out@[k].target_file
            < files@.len() && out@[k].source_start + out@[k].source_node_count <= files@[out@[k].source_file as int].nodes@.len()
            && out@[k].target_start + out@[k].target_node_count <= files@[out@[k].target_file as int].nodes@.len() by {
            let j = choose|j: int| 0 <= j < scanned@.len() && scanned@[j] == out@[k];
        }
    }
    out
}


/// Symmetry of the window comparator, inherited from the shared
/// edit-distance primitive.
pub proof fn lemma_window_similarity_symmetric(
    nodes1: Seq<AstNode>,
    w1: (usize, usize),
    nodes2: Seq<AstNode>,
    w2: (usize, usize),
)
    ensures
        spec_window_similarity(nodes1, w1, nodes2, w2) == spec_window_similarity(
            nodes2,
            w2,
            nodes1,
            w1,
        ),
{
    crate::edit::lemma_base_similarity_symmetric(
        nodes1.subrange(w1.0 as int, w1.0 + w1.1),
        nodes2.subrange(w2.0 as int, w2.0 + w2.1),
        DEFAULT_RENAME_COST,
    );
}

/// Threshold monotonicity for one source window's matches.
proof fn lemma_matches_with_monotone(
    f1: int,
    nodes1: Seq<AstNode>,
    ws1: Seq<(usize, usize)>,
    f2: int,
    nodes2: Seq<AstNode>,
    ws2: Seq<(usize, usize)>,
    t1: u64,
    t2: u64,
    tolerance: u64,
    wi: int,
    wj: int,
)
    requires
        t1 <= t2,
    ensures
        spec_matches_with(f1, nodes1, ws1, f2, nodes2, ws2, t2, tolerance, wi, wj).len()
            <= spec_matches_with(f1, nodes1, ws1, f2, nodes2, ws2, t1, tolerance, wi, wj).len(),
    decreases ws2.len() - wj,
{
    if wj < 0 || wj >= ws2.len() {
    } else {
        lemma_matches_with_monotone(f1, nodes1, ws1, f2, nodes2, ws2, t1, t2, tolerance, wi, wj + 1);
    }
}

/// Threshold monotonicity for one file pair's matches.
proof fn lemma_matches_from_monotone(
    f1: int,
    nodes1: Seq<AstNode>,
    ws1: Seq<(usize, usize)>,
    f2: int,
    nodes2: Seq<AstNode>,
    ws2: Seq<(usize, usize)>,
    t1: u64,
    t2: u64,
    tolerance: u64,
    wi: int,
)
    requires
        t1 <= t2,
    ensures
        spec_matches_from(f1, nodes1, ws1, f2, nodes2, ws2, t2, tolerance, wi).len()
            <= spec_matches_from(f1, nodes1, ws1, f2, nodes2, ws2, t1, tolerance, wi).len(),
    decreases ws1.len() - wi,
{
    if wi < 0 || wi >= ws1.len() {
    } else {
        lemma_matches_with_monotone(f1, nodes1, ws1, f2, nodes2, ws2, t1, t2, tolerance, wi, 0);
        lemma_matches_from_monotone(f1, nodes1, ws1, f2, nodes2, ws2, t1, t2, tolerance, wi + 1);
    }
}

/// Threshold monotonicity over one source file's partners.
proof fn lemma_overlaps_with_monotone(
    files: Seq<SourceFile>,
    min_w: u32,
    max_w: u32,
    t1: u64,
    t2: u64,
    tolerance: u64,
    f1: int,
    f2: int,
)
    requires
        t1 <= t2,
    ensures
        spec_overlaps_with(files, min_w, max_w, t2, tolerance, f1, f2).len()
            <= spec_overlaps_with(files, min_w, max_w, t1, tolerance, f1, f2).len(),
    decreases files.len() - f2,
{
    if f2 < 0 || f2 >= files.len() {
    } else {
        lemma_matches_from_monotone(
            f1,
            files[f1].nodes@,
            spec_windows(files[f1].nodes@, 0, min_w as int, max_w as int),
            f2,
            files[f2].nodes@,
            spec_windows(files[f2].nodes@, 0, min_w as int, max_w as int),
            t1,
            t2,
            tolerance,
            0,
        );
        lemma_overlaps_with_monotone(files, min_w, max_w, t1, t2, tolerance, f1, f2 + 1);
    }
}

/// Threshold monotonicity over the file pairs from `f1` on.
proof fn lemma_overlaps_from_monotone(
    files: Seq<SourceFile>,
    min_w: u32,
    max_w: u32,
    t1: u64,
    t2: u64,
    tolerance: u64,
    f1: int,
)
    requires
        t1 <= t2,
    ensures
        spec_overlaps_from(files, min_w, max_w, t2, tolerance, f1).len() <= spec_overlaps_from(
            files,
            min_w,
            max_w,
            t1,
            tolerance,
            f1,
        ).len(),
    decreases files.len() - f1,
{
    if f1 < 0 || f1 >= files.len() {
    } else {
        lemma_overlaps_with_monotone(files, min_w, max_w, t1, t2, tolerance, f1, f1 + 1);
        lemma_overlaps_from_monotone(files, min_w, max_w, t1, t2, tolerance, f1 + 1);
    }
}

/// Threshold monotonicity for the overlap scan: raising the threshold
/// never increases the number of qualifying window pairs. This is
/// stated of the scan before containment suppression; suppression can
/// let a higher threshold expose nested matches that a removed larger
/// match had been hiding, so the count after suppression is not
/// monotone.
pub proof fn lemma_overlap_threshold_monotone(
    files: Seq<SourceFile>,
    min_w: u32,
    max_w: u32,
    t1: u64,
    t2: u64,
    tolerance: u64,
)
    requires
        t1 <= t2,
    ensures
        spec_all_overlaps(files, min_w, max_w, t2, tolerance).len() <= spec_all_overlaps(
            files,
            min_w,
            max_w,
            t1,
            tolerance,
        ).len(),
{
    lemma_overlaps_from_monotone(files, min_w, max_w, t1, t2, tolerance, 0);
}


/// One function's extent within a file's node arena, for attributing
/// windows to their enclosing function.
#[derive(Debug)]
pub struct FuncSpan {
    /// The function's name.
    pub name: Vec<u8>,
    /// Index of its first node.
    pub first_node: usize,
    /// Index of its last node.
    pub last_node: usize,
}

/// The name of the first span containing `idx`, and the empty string
/// where none does.
pub open spec fn spec_enclosing(spans: Seq<FuncSpan>, idx: int) -> Seq<u8>
    decreases spans.len(),
{
    if spans.len() == 0 {
        Seq::empty()
    } else if spans.first().first_node <= idx <= spans.first().last_node {
        spans.first().name@
    } else {
        spec_enclosing(spans.drop_first(), idx)
    }
}

/// Finds the enclosing function of a window start: the first span of
/// the file's function table that contains it.
pub fn enclosing_function(spans: &Vec<FuncSpan>, idx: usize) -> (r: Vec<u8>)
    ensures
        r@ == spec_enclosing(spans@, idx as int),
{
    proof {
        assert(spans@.skip(0) =~= spans@);
    }
    let mut k: usize = 0;
    while k < spans.len()
        invariant
            k <= spans@.len(),
            spec_enclosing(spans@, idx as int) == spec_enclosing(spans@.skip(k as int), idx as int),
        decreases spans@.len() - k,
    {
        proof {
            assert(spans@.skip(k as int).first() == spans@[k as int]);
            assert(spans@.skip(k as int).drop_first() =~= spans@.skip(k + 1));
        }
        if spans[k].first_node <= idx && idx <= spans[k].last_node {
            return crate::text::copy_bytes(&spans[k].name);
        }
        k += 1;
    }
    Vec::new()
}

/// The source line span a window covers: from its first node's first
/// line to its last node's last line.
pub fn window_lines(nodes: &Vec<AstNode>, start: usize, count: usize) -> (r: (u32, u32))
    requires
        1 <= count,
        start + count <= nodes@.len(),
    ensures
        r.0 == nodes@[start as int].start_line,
        r.1 == nodes@[start + count - 1].end_line,
{
    let n = nodes.len();
    let last = start + (count - 1);
    (nodes[start].start_line, nodes[last].end_line)
}

} // verus!
