//! A plain model of the parsed markup tree.
//!
//! Each [`Node`] holds exactly what extraction reads from an element of the
//! source page: its tag name, its class list, an optional icon-reference
//! attribute, its text content, and its child elements in document order.
use vstd::prelude::*;

verus! {

/// One element of the markup tree, with its children in document order.
pub struct Node {
    /// Tag name of the element (for example `div`).
    pub tag: String,
    /// The element's class list, in source order.
    pub classes: Vec<String>,
    /// The element's icon-reference attribute, when present.
    pub src: Option<String>,
    /// The element's text content, untrimmed.
    pub text: String,
    /// Child elements, in document order.
    pub children: Vec<Node>,
}

/// A query pattern over single elements: an optional required tag name,
/// one required class, and an optional class that must be absent.
pub struct Pattern {
    /// When present, the element's tag name must equal this.
    pub tag: Option<String>,
    /// The element must carry this class.
    pub class: String,
    /// When present, the element must not carry this class.
    pub not_class: Option<String>,
}

/// Whether some class in `classes` reads `c`.
pub open spec fn has_class(classes: Seq<String>, c: Seq<char>) -> bool {
    exists|i: int| 0 <= i < classes.len() && classes[i]@ == c
}

/// Whether a single element matches a pattern.
pub open spec fn node_matches(n: Node, p: Pattern) -> bool {
    &&& (p.tag matches Some(t) ==> n.tag@ == t@)
    &&& has_class(n.classes@, p.class@)
    &&& (p.not_class matches Some(c) ==> !has_class(n.classes@, c@))
}

/// The elements of the subtree rooted at `n` that match `p`, in document
/// order (pre-order), including `n` itself when it matches.
pub open spec fn tree_hits(n: Node, p: Pattern) -> Seq<Node>
    decreases n,
{
    (if node_matches(n, p) {
        seq![n]
    } else {
        Seq::<Node>::empty()
    }) + forest_hits(n.children@, p)
}

/// The matching elements of a forest of subtrees, in document order.
pub open spec fn forest_hits(ns: Seq<Node>, p: Pattern) -> Seq<Node>
    decreases ns,
{
    if ns.len() == 0 {
        Seq::<Node>::empty()
    } else {
        tree_hits(ns[0], p) + forest_hits(ns.drop_first(), p)
    }
}

/// The matching proper descendants of `n`, in document order.
pub open spec fn descendant_hits(n: Node, p: Pattern) -> Seq<Node> {
    forest_hits(n.children@, p)
}

/// The values behind a sequence of node references.
pub open spec fn deref_seq(s: Seq<&Node>) -> Seq<Node> {
    s.map_values(|r: &Node| *r)
}

/// Every element that selection yields matches the pattern it was
/// selected by.
pub proof fn lemma_tree_hits_match(n: Node, p: Pattern)
    ensures
        forall|i: int|
            0 <= i < tree_hits(n, p).len() ==> node_matches(#[trigger] tree_hits(n, p)[i], p),
    decreases n,
{
    lemma_forest_hits_match(n.children@, p);
    assert forall|i: int|
        0 <= i < tree_hits(n, p).len() implies node_matches(#[trigger] tree_hits(n, p)[i], p) by {
        let head: Seq<Node> = if node_matches(n, p) {
            seq![n]
        } else {
            Seq::<Node>::empty()
        };
        assert(tree_hits(n, p)[i] == (head + forest_hits(n.children@, p))[i]);
        if i >= head.len() {
            assert(tree_hits(n, p)[i] == forest_hits(n.children@, p)[i - head.len()]);
        }
    }
}

/// Every element that selection yields from a forest matches the pattern.
pub proof fn lemma_forest_hits_match(ns: Seq<Node>, p: Pattern)
    ensures
        forall|i: int|
            0 <= i < forest_hits(ns, p).len() ==> node_matches(
                #[trigger] forest_hits(ns, p)[i],
                p,
            ),
    decreases ns,
{
    if ns.len() > 0 {
        lemma_tree_hits_match(ns[0], p);
        lemma_forest_hits_match(ns.drop_first(), p);
        assert forall|i: int|
            0 <= i < forest_hits(ns, p).len() implies node_matches(
            #[trigger] forest_hits(ns, p)[i],
            p,
        ) by {
            let head = tree_hits(ns[0], p);
            assert(forest_hits(ns, p)[i] == (head + forest_hits(ns.drop_first(), p))[i]);
            if i >= head.len() {
                assert(forest_hits(ns, p)[i] == forest_hits(ns.drop_first(), p)[i - head.len()]);
            }
        }
    }
}

/// Whether two strings read the same.
pub fn string_eq(a: &String, b: &String) -> (r: bool)
    ensures
        r == (a@ == b@),
{
    a.eq(b)
}

/// Whether the element `n` itself matches `p`.
pub fn matches_pattern(n: &Node, p: &Pattern) -> (r: bool)
    ensures
        r == node_matches(*n, *p),
{
    if let Some(t) = &p.tag {
        if !string_eq(&n.tag, t) {
            return false;
        }
    }
    let mut found: bool = false;
    let mut i: usize = 0;
    while i < n.classes.len()
        invariant
            0 <= i <= n.classes.len(),
            found == exists|j: int| 0 <= j < i && n.classes@[j]@ == p.class@,
        decreases n.classes.len() - i,
    {
        if string_eq(&n.classes[i], &p.class) {
            found = true;
        }
        i = i + 1;
    }
    if !found {
        return false;
    }
    if let Some(c) = &p.not_class {
        let mut k: usize = 0;
        while k < n.classes.len()
            invariant
                0 <= k <= n.classes.len(),
                p.not_class == Some(*c),
                forall|j: int| 0 <= j < k ==> n.classes@[j]@ != c@,
            decreases n.classes.len() - k,
        {
            if string_eq(&n.classes[k], c) {
                return false;
            }
            k = k + 1;
        }
    }
    true
}

/// Append to `out` every element of the subtree rooted at `n` that
/// matches `p`, including `n` itself, in document order.
fn collect_tree<'a>(n: &'a Node, p: &Pattern, out: &mut Vec<&'a Node>)
    ensures
        deref_seq(final(out)@) == deref_seq(old(out)@) + tree_hits(*n, *p),
    decreases *n,
{
    if matches_pattern(n, p) {
        out.push(n);
        assert(deref_seq(out@) =~= deref_seq(old(out)@) + seq![*n]);
    } else {
        assert(deref_seq(out@) =~= deref_seq(old(out)@) + Seq::<Node>::empty());
    }
    let ghost mid = out@;
    let mut i: usize = 0;
    while i < n.children.len()
        invariant
            i <= n.children.len(),
            deref_seq(out@) == deref_seq(mid) + forest_hits(n.children@.take(i as int), *p),
        decreases n.children.len() - i,
    {
        collect_tree(&n.children[i], p, out);
        proof {
            assert(n.children@.take(i + 1) =~= n.children@.take(i as int).push(
                n.children@[i as int],
            ));
            lemma_forest_hits_push(n.children@.take(i as int), n.children@[i as int], *p);
            assert(deref_seq(out@) =~= deref_seq(mid) + forest_hits(
                n.children@.take(i + 1),
                *p,
            ));
        }
        i = i + 1;
    }
    proof {
        assert(n.children@.take(n.children@.len() as int) =~= n.children@);
        assert(deref_seq(out@) =~= deref_seq(old(out)@) + tree_hits(*n, *p));
    }
}

/// Selecting from a forest extended by one tree appends that tree's hits.
proof fn lemma_forest_hits_push(ns: Seq<Node>, x: Node, p: Pattern)
    ensures
        forest_hits(ns.push(x), p) == forest_hits(ns, p) + tree_hits(x, p),
    decreases ns,
{
    if ns.len() == 0 {
        assert(ns.push(x)[0] == x);
        assert(ns.push(x).drop_first() =~= Seq::<Node>::empty());
        assert(forest_hits(ns.push(x), p) == tree_hits(x, p) + forest_hits(
            Seq::<Node>::empty(),
            p,
        ));
        assert(forest_hits(ns.push(x), p) =~= forest_hits(ns, p) + tree_hits(x, p));
    } else {
        assert(ns.push(x)[0] == ns[0]);
        assert(ns.push(x).drop_first() =~= ns.drop_first().push(x));
        lemma_forest_hits_push(ns.drop_first(), x, p);
        assert(forest_hits(ns.push(x), p) == tree_hits(ns[0], p) + (forest_hits(
            ns.drop_first(),
            p,
        ) + tree_hits(x, p)));
        assert(forest_hits(ns.push(x), p) =~= forest_hits(ns, p) + tree_hits(x, p));
    }
}

/// The proper descendants of `n` that match `p`, in document order.
pub fn select<'a>(n: &'a Node, p: &Pattern) -> (r: Vec<&'a Node>)
    ensures
        deref_seq(r@) == descendant_hits(*n, *p),
{
    let mut out: Vec<&'a Node> = Vec::new();
    assert(deref_seq(out@) =~= Seq::<Node>::empty());
    let mut i: usize = 0;
    while i < n.children.len()
        invariant
            i <= n.children.len(),
            deref_seq(out@) == forest_hits(n.children@.take(i as int), *p),
        decreases n.children.len() - i,
    {
        collect_tree(&n.children[i], p, &mut out);
        proof {
            assert(n.children@.take(i + 1) =~= n.children@.take(i as int).push(
                n.children@[i as int],
            ));
            lemma_forest_hits_push(n.children@.take(i as int), n.children@[i as int], *p);
        }
        i = i + 1;
    }
    proof {
        assert(n.children@.take(n.children@.len() as int) =~= n.children@);
    }
    out
}

} // verus!
