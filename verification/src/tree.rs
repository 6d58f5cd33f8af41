//! The flat, arena-indexed node model that the front-end parser hands
//! over.
//!
//! A parsed unit is a `Vec<AstNode>`: the nodes of its tree in preorder,
//! so that children follow their parent and a contiguous range of
//! indices is a meaningful window of code. Comparison engines read only
//! the `kind` and `label` fields; the line span is provenance carried
//! through to reports.

use vstd::prelude::*;

verus! {

/// One node of a parsed tree, in preorder position within its unit's
/// flat arena.
#[derive(Clone, Copy, PartialEq, Eq, Structural, Debug)]
pub struct AstNode {
    /// Interned syntactic kind (statement, call, literal, ...).
    pub kind: u64,
    /// Interned identifier or literal text; 0 where the node has none.
    /// Relabeling a node changes only this field, which is what the
    /// rename cost of the edit distance prices.
    pub label: u64,
    /// First source line covered by the node (1-based).
    pub start_line: u32,
    /// Last source line covered by the node.
    pub end_line: u32,
    /// True where a statement may begin at this node; overlap windows
    /// are enumerated only at such boundaries.
    pub boundary: bool,
}

impl AstNode {
    /// A well-formed node covers a non-empty, 1-based line span.
    pub open spec fn wf(self) -> bool {
        1 <= self.start_line <= self.end_line
    }
}

/// Lifts a byte string into leaf nodes, one per byte, so that the
/// sequence comparison primitive of the edit module can also score
/// identifier similarity: two bytes substitute for free exactly when
/// they are equal, and at full cost otherwise.
pub open spec fn spec_byte_nodes(s: Seq<u8>) -> Seq<AstNode> {
    s.map_values(|b: u8| byte_node(b))
}

/// The leaf node standing for one byte of an identifier.
pub open spec fn byte_node(b: u8) -> AstNode {
    AstNode { kind: b as u64, label: 0, start_line: 1, end_line: 1, boundary: false }
}

/// Builds the leaf-node form of a byte string.
pub fn byte_nodes(s: &Vec<u8>) -> (r: Vec<AstNode>)
    ensures
        r@ == spec_byte_nodes(s@),
{
    let mut r: Vec<AstNode> = Vec::new();
    let mut i: usize = 0;
    while i < s.len()
        invariant
            i <= s@.len(),
            r@ == spec_byte_nodes(s@.take(i as int)),
        decreases s@.len() - i,
    {
        let b = s[i];
        r.push(AstNode { kind: b as u64, label: 0, start_line: 1, end_line: 1, boundary: false });
        proof {
            assert(s@.take(i + 1).drop_last() =~= s@.take(i as int));
            assert(spec_byte_nodes(s@.take(i + 1)) =~= spec_byte_nodes(s@.take(i as int)).push(
                byte_node(s@[i as int]),
            ));
        }
        i += 1;
    }
    proof {
        assert(s@.take(s@.len() as int) =~= s@);
    }
    r
}

} // verus!
