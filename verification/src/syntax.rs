//! A plain syntax tree of Teal source, as the grammar produces it: every node has
//! a kind, the source text it spans, and its children, each possibly attached under
//! a field name and either named or anonymous.

use vstd::prelude::*;

verus! {

/// One node of a Teal syntax tree.
#[derive(Debug)]
pub struct SyntaxNode {
    /// The grammar kind of the node, such as `simple_type` or `record_declaration`.
    pub kind: String,
    /// The source text that the node spans.
    pub text: String,
    /// The children of the node, in source order.
    pub children: Vec<SyntaxChild>,
}

/// A child of a syntax node together with how it hangs under its parent.
#[derive(Debug)]
pub struct SyntaxChild {
    /// The field name under which the child is attached, if any.
    pub field: Option<String>,
    /// Whether the child is a named node (anonymous nodes are punctuation and keywords).
    pub named: bool,
    /// The child itself.
    pub node: SyntaxNode,
}

/// Whether the child `c` is attached under the field `name`.
pub open spec fn has_field(c: SyntaxChild, name: Seq<char>) -> bool {
    c.field matches Some(f) && f@ == name
}

/// The first child in `cs` that is attached under the field `name`.
pub open spec fn field_child(cs: Seq<SyntaxChild>, name: Seq<char>) -> Option<SyntaxNode>
    decreases cs.len(),
{
    if cs.len() == 0 {
        None
    } else if has_field(cs[0], name) {
        Some(cs[0].node)
    } else {
        field_child(cs.drop_first(), name)
    }
}

/// The named children in `cs`, in order.
pub open spec fn named_nodes(cs: Seq<SyntaxChild>) -> Seq<SyntaxNode>
    decreases cs.len(),
{
    if cs.len() == 0 {
        Seq::empty()
    } else if cs.last().named {
        named_nodes(cs.drop_last()).push(cs.last().node)
    } else {
        named_nodes(cs.drop_last())
    }
}

/// The source texts of a sequence of nodes.
pub open spec fn texts(ns: Seq<SyntaxNode>) -> Seq<Seq<char>> {
    ns.map_values(|n: SyntaxNode| n.text@)
}

/// The nodes behind a sequence of references.
pub open spec fn derefs(s: Seq<&SyntaxNode>) -> Seq<SyntaxNode> {
    s.map_values(|r: &SyntaxNode| *r)
}

/// Unfolds `named_nodes` over one more child of a prefix.
pub proof fn lemma_named_nodes_step(cs: Seq<SyntaxChild>, i: int)
    requires
        0 <= i < cs.len(),
    ensures
        named_nodes(cs.take(i + 1)) == if cs[i].named {
            named_nodes(cs.take(i)).push(cs[i].node)
        } else {
            named_nodes(cs.take(i))
        },
{
    assert(cs.take(i + 1).drop_last() =~= cs.take(i));
}

/// Whether the text `s` reads exactly `lit`.
pub fn text_is(s: &String, lit: &str) -> (res: bool)
    ensures
        res == (s@ == lit@),
{
    let owned: String = lit.to_owned();
    s.eq(&owned)
}

impl SyntaxNode {
    /// The first child attached under the field `name`, if there is one.
    pub fn child_by_field_name(&self, name: &str) -> (res: Option<&SyntaxNode>)
        ensures
            match res {
                Some(n) => field_child(self.children@, name@) == Some(*n),
                None => field_child(self.children@, name@) is None,
            },
    {
        let key: String = name.to_owned();
        let mut i: usize = 0;
        assert(self.children@.skip(0) =~= self.children@);
        while i < self.children.len()
            invariant
                i <= self.children.len(),
                key@ == name@,
                field_child(self.children@, name@) == field_child(
                    self.children@.skip(i as int),
                    name@,
                ),
            decreases self.children.len() - i,
        {
            let ghost rest = self.children@.skip(i as int);
            assert(rest[0] == self.children@[i as int]);
            assert(rest.drop_first() =~= self.children@.skip(i + 1));
            let c = &self.children[i];
            match &c.field {
                Some(f) => {
                    if f.eq(&key) {
                        return Some(&c.node);
                    }
                },
                None => {},
            }
            i = i + 1;
        }
        None
    }

    /// The named child at position `i` among the named children, if there is one.
    pub fn named_child(&self, i: usize) -> (res: Option<&SyntaxNode>)
        ensures
            match res {
                Some(n) => i < named_nodes(self.children@).len() && named_nodes(
                    self.children@,
                )[i as int] == *n,
                None => i >= named_nodes(self.children@).len(),
            },
    {
        let mut k: usize = 0;
        let mut seen: usize = 0;
        while k < self.children.len()
            invariant
                k <= self.children.len(),
                seen == named_nodes(self.children@.take(k as int)).len(),
                seen <= i,
            decreases self.children.len() - k,
        {
            proof {
                lemma_named_nodes_step(self.children@, k as int);
            }
            if self.children[k].named {
                if seen == i {
                    proof {
                        lemma_named_nodes_prefix(self.children@, k + 1);
                    }
                    return Some(&self.children[k].node);
                }
                seen = seen + 1;
            }
            k = k + 1;
        }
        assert(self.children@.take(k as int) =~= self.children@);
        None
    }

    /// The named children, in order.
    pub fn named_children(&self) -> (res: Vec<&SyntaxNode>)
        ensures
            derefs(res@) == named_nodes(self.children@),
    {
        let mut out: Vec<&SyntaxNode> = Vec::new();
        let mut k: usize = 0;
        while k < self.children.len()
            invariant
                k <= self.children.len(),
                derefs(out@) == named_nodes(self.children@.take(k as int)),
            decreases self.children.len() - k,
        {
            proof {
                lemma_named_nodes_step(self.children@, k as int);
            }
            if self.children[k].named {
                let ghost before = out@;
                out.push(&self.children[k].node);
                assert(derefs(out@) =~= derefs(before).push(self.children@[k as int].node));
            }
            k = k + 1;
        }
        assert(self.children@.take(k as int) =~= self.children@);
        out
    }

    /// The source texts of the named children, in order.
    pub fn named_children_texts(&self) -> (res: Vec<String>)
        ensures
            res@.map_values(|s: String| s@) == texts(named_nodes(self.children@)),
    {
        let mut out: Vec<String> = Vec::new();
        let mut k: usize = 0;
        while k < self.children.len()
            invariant
                k <= self.children.len(),
                out@.map_values(|s: String| s@) == texts(named_nodes(self.children@.take(k as int))),
            decreases self.children.len() - k,
        {
            proof {
                lemma_named_nodes_step(self.children@, k as int);
            }
            if self.children[k].named {
                let t = self.children[k].node.text.clone();
                let ghost before = out@;
                out.push(t);
                assert(out@.map_values(|s: String| s@) =~= before.map_values(|s: String| s@).push(
                    t@,
                ));
                assert(texts(named_nodes(self.children@.take(k + 1))) =~= texts(
                    named_nodes(self.children@.take(k as int)),
                ).push(t@));
            }
            k = k + 1;
        }
        assert(self.children@.take(k as int) =~= self.children@);
        out
    }
}

/// The named nodes of a prefix are a prefix of the named nodes.
pub proof fn lemma_named_nodes_prefix(cs: Seq<SyntaxChild>, k: int)
    requires
        0 <= k <= cs.len(),
    ensures
        named_nodes(cs.take(k)).len() <= named_nodes(cs).len(),
        forall|j: int|
            0 <= j < named_nodes(cs.take(k)).len() ==> named_nodes(cs.take(k))[j] == named_nodes(
                cs,
            )[j],
    decreases cs.len() - k,
{
    if k < cs.len() {
        lemma_named_nodes_step(cs, k);
        lemma_named_nodes_prefix(cs, k + 1);
    } else {
        assert(cs.take(k) =~= cs);
    }
}

/// The child found under a field is the first child attached under that field; there is
/// none exactly when no child is attached under it.
pub proof fn law_field_child_is_first_with_field(cs: Seq<SyntaxChild>, name: Seq<char>)
    ensures
        match field_child(cs, name) {
            Some(n) => exists|i: int|
                0 <= i < cs.len() && has_field(cs[i], name) && cs[i].node == n && forall|j: int|
                    0 <= j < i ==> !has_field(#[trigger] cs[j], name),
            None => forall|i: int| 0 <= i < cs.len() ==> !has_field(#[trigger] cs[i], name),
        },
    decreases cs.len(),
{
    if cs.len() > 0 {
        let rest = cs.drop_first();
        law_field_child_is_first_with_field(rest, name);
        if !has_field(cs[0], name) {
            match field_child(rest, name) {
                Some(n) => {
                    let i = choose|i: int|
                        0 <= i < rest.len() && has_field(rest[i], name) && rest[i].node == n
                            && forall|j: int| 0 <= j < i ==> !has_field(#[trigger] rest[j], name);
                    assert(cs[i + 1] == rest[i]);
                    assert forall|j: int| 0 <= j < i + 1 implies !has_field(#[trigger] cs[j], name) by {
                        if j > 0 {
                            assert(cs[j] == rest[j - 1]);
                        }
                    }
                },
                None => {
                    assert forall|i: int| 0 <= i < cs.len() implies !has_field(#[trigger] cs[i], name) by {
                        if i > 0 {
                            assert(cs[i] == rest[i - 1]);
                        }
                    }
                },
            }
        }
    }
}

/// The named children are the children that are named, in order: the children filtered
/// by being named, each taken as its node.
pub proof fn law_named_nodes_are_the_named_children(cs: Seq<SyntaxChild>)
    ensures
        named_nodes(cs) == cs.filter(|c: SyntaxChild| c.named).map_values(|c: SyntaxChild| c.node),
    decreases cs.len(),
{
    reveal(Seq::filter);
    if cs.len() > 0 {
        law_named_nodes_are_the_named_children(cs.drop_last());
        let f0 = cs.drop_last().filter(|c: SyntaxChild| c.named);
        if cs.last().named {
            assert(f0.push(cs.last()).map_values(|c: SyntaxChild| c.node) =~= f0.map_values(
                |c: SyntaxChild| c.node,
            ).push(cs.last().node));
        }
    }
}

} // verus!
