//! The abstract syntax tree: a strict binary tree whose leaves are integer
//! literals and whose inner nodes are the four arithmetic operators. Each
//! node exclusively owns its children; the tree is immutable once built.

use vstd::prelude::*;

verus! {

/// What one tree node stands for: a literal, or one of the four operators.
#[allow(non_camel_case_types)]
#[derive(Clone, Copy, Debug, PartialEq, Eq, Structural)]
pub enum ASTNodeKind {
    NUMBER,
    ADD,
    SUB,
    MUL,
    DIV,
}

/// One tree node. `integral_value` is the literal's value for `NUMBER` nodes
/// and zero for operator nodes; a `NUMBER` node has no children, an operator
/// node owns both.
#[derive(Debug)]
pub struct ASTNode {
    pub integral_value: i128,
    pub kind: ASTNodeKind,
    pub left: Option<Box<ASTNode>>,
    pub right: Option<Box<ASTNode>>,
}

impl ASTNode {
    /// The shape every tree the parser builds has: literal leaves carry no
    /// children, operator nodes carry exactly two well-formed subtrees.
    pub open spec fn well_formed(self) -> bool
        decreases self,
    {
        match self.kind {
            ASTNodeKind::NUMBER => self.left is None && self.right is None,
            _ => match (self.left, self.right) {
                (Some(l), Some(r)) => (*l).well_formed() && (*r).well_formed(),
                _ => false,
            },
        }
    }
}

} // verus!
