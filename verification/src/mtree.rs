use vstd::prelude::*;
use crate::token::{Token, Tok};

verus! {

/// A node of the generic syntax tree: a token label and ordered children.
/// Each node owns its children outright; the parser builds trees bottom-up
/// and no later stage mutates them.
#[derive(Debug)]
pub struct MTree {
    pub token: Token,
    pub children: Vec<MTree>,
}

/// The mathematical model of a syntax-tree node: the model of its label and
/// the models of its children, in order.
pub ghost struct Tree {
    pub tok: Tok,
    pub children: Seq<Tree>,
}

impl MTree {
    /// The model of this node.
    pub open spec fn model(self) -> Tree
        decreases self,
    {
        Tree { tok: self.token@, children: trees_of(self.children@) }
    }
}

/// The models of a sequence of syntax-tree nodes, in order.
pub open spec fn trees_of(s: Seq<MTree>) -> Seq<Tree>
    decreases s,
{
    if s.len() == 0 {
        Seq::empty()
    } else {
        trees_of(s.drop_last()).push(s.last().model())
    }
}

impl View for MTree {
    type V = Tree;

    open spec fn view(&self) -> Tree {
        self.model()
    }
}

/// `trees_of` maps a sequence of nodes to their models pointwise.
pub broadcast proof fn lemma_trees_of(s: Seq<MTree>)
    ensures
        (#[trigger] trees_of(s)).len() == s.len(),
        forall|i: int| 0 <= i < s.len() ==> trees_of(s)[i] == s[i]@,
    decreases s,
{
    if s.len() > 0 {
        lemma_trees_of(s.drop_last());
        assert forall|i: int| 0 <= i < s.len() implies trees_of(s)[i] == s[i]@ by {
            if i < s.len() - 1 {
                assert(trees_of(s)[i] == trees_of(s.drop_last())[i]);
                assert(s.drop_last()[i] == s[i]);
            } else {
                assert(trees_of(s)[i] == s.last()@);
            }
        }
    }
}

impl MTree {
    /// A leaf node labeled by the given token.
    pub fn new(token: Token) -> (r: MTree)
        ensures
            r@ == (Tree { tok: token@, children: Seq::<Tree>::empty() }),
    {
        MTree { token, children: Vec::new() }
    }

    /// Append one child to this node.
    pub fn _push(&mut self, tree: MTree)
        ensures
            final(self)@ == (Tree {
                tok: old(self)@.tok,
                children: old(self)@.children.push(tree@),
            }),
    {
        let ghost prior = self.children@;
        self.children.push(tree);
        proof {
            assert(self.children@.drop_last() =~= prior);
        }
    }
}

} // verus!
