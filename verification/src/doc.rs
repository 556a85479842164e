use vstd::prelude::*;

verus! {

/// One node of the parsed markup document: an element carrying a tag and
/// attributes, or a raw text node.
pub enum NodeData {
    Element { tag: String, attrs: Vec<(String, String)> },
    Text { text: String },
}

/// A node together with the indices of its children. Children always have
/// smaller indices than their parent: a document is built bottom-up.
pub struct Node {
    pub data: NodeData,
    pub kids: Vec<usize>,
}

/// A traversable representation of the markup document: an arena of nodes
/// and the index of the root element.
pub struct Doc {
    pub nodes: Vec<Node>,
    pub root: usize,
}

/// A selection criterion: by tag name, or by an attribute carrying a given
/// value.
pub enum Pred {
    Tag(String),
    Attr(String, String),
}

/// The mathematical form of a selection criterion.
pub enum PredV {
    Tag(Seq<char>),
    Attr(Seq<char>, Seq<char>),
}

impl View for Pred {
    type V = PredV;

    open spec fn view(&self) -> PredV {
        match self {
            Pred::Tag(tag) => PredV::Tag(tag@),
            Pred::Attr(name, value) => PredV::Attr(name@, value@),
        }
    }
}

impl Doc {
    /// Every child of node `i` lies strictly below `i` in the arena.
    pub open spec fn node_wf(&self, i: int) -> bool {
        forall|j: int|
            0 <= j < self.nodes[i].kids.len() ==> (#[trigger] self.nodes[i].kids[j]) < i
    }

    /// The arena is well formed: children precede parents, and the root
    /// index is in range (an empty document has no root to point at).
    pub open spec fn wf(&self) -> bool {
        &&& forall|i: int| 0 <= i < self.nodes.len() ==> #[trigger] self.node_wf(i)
        &&& (self.nodes.len() == 0 ==> self.root == 0)
        &&& (self.nodes.len() > 0 ==> self.root < self.nodes.len())
    }

    pub open spec fn is_element(&self, i: int) -> bool {
        self.nodes[i].data is Element
    }

    pub open spec fn tag_of(&self, i: int) -> Seq<char> {
        match self.nodes[i].data {
            NodeData::Element { tag, .. } => tag@,
            NodeData::Text { .. } => Seq::empty(),
        }
    }

    /// The node satisfies the criterion: it is an element with the given
    /// tag, or an element one of whose attributes carries the given value.
    pub open spec fn node_matches(&self, i: int, p: PredV) -> bool {
        match p {
            PredV::Tag(tag) => self.is_element(i) && self.tag_of(i) == tag,
            PredV::Attr(name, value) => {
                &&& self.is_element(i)
                &&& match self.nodes[i].data {
                    NodeData::Element { attrs, .. } => attrs_have(attrs@, name, value),
                    NodeData::Text { .. } => false,
                }
            },
        }
    }

    /// The concatenated text of the subtree rooted at node `i`: a text
    /// node contributes its own text, an element the texts of its children
    /// in order, with nothing between them.
    pub open spec fn text_of(&self, i: int) -> Seq<char>
        decreases i, 1int, 0int,
        when self.wf() && 0 <= i < self.nodes.len()
    {
        match self.nodes[i].data {
            NodeData::Text { text } => text@,
            NodeData::Element { .. } => self.kids_text(i, 0),
        }
    }

    /// The concatenated text of the children of node `i` from child
    /// position `pos` on.
    pub open spec fn kids_text(&self, i: int, pos: int) -> Seq<char>
        decreases i, 0int, self.nodes[i].kids.len() - pos,
        when self.wf() && 0 <= i < self.nodes.len() && 0 <= pos
        via Self::kids_text_decreases
    {
        if pos >= self.nodes[i].kids.len() {
            Seq::empty()
        } else {
            self.text_of(self.nodes[i].kids[pos] as int) + self.kids_text(i, pos + 1)
        }
    }

    #[via_fn]
    proof fn kids_text_decreases(&self, i: int, pos: int) {
        assert(self.node_wf(i));
    }

    /// The sites, as (parent, child position) pairs in document order, of
    /// the descendants of node `i` from child position `pos` on that
    /// satisfy the criterion: each matching child is listed before the
    /// matches inside its own subtree, and those before the matches of the
    /// following siblings.
    pub open spec fn search_from(&self, i: int, pos: int, p: PredV) -> Seq<(int, int)>
        decreases i, self.nodes[i].kids.len() - pos,
        when self.wf() && 0 <= i < self.nodes.len() && 0 <= pos
        via Self::search_from_decreases
    {
        if pos >= self.nodes[i].kids.len() {
            Seq::empty()
        } else {
            let kid = self.nodes[i].kids[pos] as int;
            (if self.node_matches(kid, p) {
                seq![(i, pos)]
            } else {
                Seq::empty()
            }) + self.search_from(kid, 0, p) + self.search_from(i, pos + 1, p)
        }
    }

    #[via_fn]
    proof fn search_from_decreases(&self, i: int, pos: int, p: PredV) {
        assert(self.node_wf(i));
    }

    /// The node id a search site denotes.
    pub open spec fn site_id(&self, site: (int, int)) -> int {
        self.nodes[site.0].kids[site.1] as int
    }
}

/// Some attribute in the list carries the given name and value.
pub open spec fn attrs_have(attrs: Seq<(String, String)>, name: Seq<char>, value: Seq<char>) -> bool {
    exists|a: int|
        0 <= a < attrs.len() && (#[trigger] attrs[a]).0@ == name && attrs[a].1@ == value
}

/// Scans an attribute list for the given name and value.
fn attrs_contain(attrs: &Vec<(String, String)>, name: &String, value: &String) -> (r: bool)
    ensures
        r == attrs_have(attrs@, name@, value@),
{
    let n = attrs.len();
    let mut a: usize = 0;
    while a < n
        invariant
            n == attrs@.len(),
            0 <= a <= n,
            forall|aa: int|
                0 <= aa < a ==> !((#[trigger] attrs@[aa]).0@ == name@ && attrs@[aa].1@ == value@),
        decreases n - a,
    {
        if String::eq(&attrs[a].0, name) && String::eq(&attrs[a].1, value) {
            proof {
                assert((#[trigger] attrs@[a as int]).0@ == name@ && attrs@[a as int].1@ == value@);
            }
            return true;
        }
        a = a + 1;
    }
    false
}

/// The sites of a search result, as mathematical pairs.
pub open spec fn sites_view(v: Seq<(usize, usize)>) -> Seq<(int, int)> {
    v.map_values(|s: (usize, usize)| (s.0 as int, s.1 as int))
}

impl Doc {
    /// An empty document.
    pub fn new() -> (d: Doc)
        ensures
            d.wf(),
            d.nodes@.len() == 0,
    {
        Doc { nodes: Vec::new(), root: 0 }
    }

    /// Adds a text node and returns its index.
    pub fn add_text(&mut self, text: String) -> (id: usize)
        requires
            old(self).wf(),
        ensures
            final(self).wf(),
            id == old(self).nodes@.len(),
            final(self).nodes@.len() == old(self).nodes@.len() + 1,
            forall|i: int|
                0 <= i < old(self).nodes@.len() ==> final(self).nodes@[i] == old(self).nodes@[i],
            final(self).nodes@[id as int].data == (NodeData::Text { text }),
            final(self).nodes@[id as int].kids@ == Seq::<usize>::empty(),
            final(self).root == old(self).root,
    {
        let id = self.nodes.len();
        self.nodes.push(Node { data: NodeData::Text { text }, kids: Vec::new() });
        proof {
            assert forall|i: int| 0 <= i < self.nodes.len() implies #[trigger] self.node_wf(i) by {
                if i < old(self).nodes.len() {
                    assert(old(self).node_wf(i));
                    assert(self.nodes[i].kids == old(self).nodes[i].kids);
                } else {
                    assert(self.nodes[i].kids@.len() == 0);
                }
            }
        }
        id
    }

    /// Adds an element node whose children are the previously added nodes
    /// named by `kids`, and returns its index.
    pub fn add_element(&mut self, tag: String, attrs: Vec<(String, String)>, kids: Vec<usize>) -> (id: usize)
        requires
            old(self).wf(),
            forall|j: int| 0 <= j < kids@.len() ==> (#[trigger] kids@[j]) < old(self).nodes@.len(),
        ensures
            final(self).wf(),
            id == old(self).nodes@.len(),
            final(self).nodes@.len() == old(self).nodes@.len() + 1,
            forall|i: int|
                0 <= i < old(self).nodes@.len() ==> final(self).nodes@[i] == old(self).nodes@[i],
            final(self).nodes@[id as int].data == (NodeData::Element { tag, attrs }),
            final(self).nodes@[id as int].kids == kids,
            final(self).root == old(self).root,
    {
        let id = self.nodes.len();
        self.nodes.push(Node { data: NodeData::Element { tag, attrs }, kids });
        proof {
            assert forall|i: int| 0 <= i < self.nodes.len() implies #[trigger] self.node_wf(i) by {
                if i < old(self).nodes.len() {
                    assert(old(self).node_wf(i));
                    assert(self.nodes[i].kids == old(self).nodes[i].kids);
                } else {
                    assert(self.nodes[i].kids == kids);
                    assert forall|j: int|
                        0 <= j < self.nodes[i].kids.len() implies (#[trigger] self.nodes[i].kids[j])
                        < i by {
                        assert(self.nodes[i].kids[j] == kids@[j]);
                    }
                }
            }
        }
        id
    }

    /// Marks the node `id` as the document's root element.
    pub fn set_root(&mut self, id: usize)
        requires
            old(self).wf(),
            id < old(self).nodes@.len(),
        ensures
            final(self).wf(),
            final(self).nodes@ == old(self).nodes@,
            final(self).root == id,
    {
        self.root = id;
        proof {
            assert forall|i: int| 0 <= i < self.nodes.len() implies #[trigger] self.node_wf(i) by {
                assert(old(self).node_wf(i));
            }
        }
    }

    /// Whether node `i` satisfies the criterion.
    pub fn check_match(&self, i: usize, p: &Pred) -> (r: bool)
        requires
            self.wf(),
            i < self.nodes@.len(),
        ensures
            r == self.node_matches(i as int, p@),
    {
        match (&self.nodes[i].data, p) {
            (NodeData::Element { tag, .. }, Pred::Tag(t)) => String::eq(tag, t),
            (NodeData::Element { attrs, .. }, Pred::Attr(name, value)) => attrs_contain(
                attrs,
                name,
                value,
            ),
            (NodeData::Text { .. }, _) => false,
        }
    }

    /// The concatenated text of the subtree rooted at node `i`.
    pub fn text_content(&self, i: usize) -> (r: String)
        requires
            self.wf(),
            i < self.nodes@.len(),
        ensures
            r@ == self.text_of(i as int),
        decreases i,
    {
        match &self.nodes[i].data {
            NodeData::Text { text } => text.clone(),
            NodeData::Element { .. } => {
                let mut out = String::new();
                let n = self.nodes[i].kids.len();
                let mut pos: usize = 0;
                while pos < n
                    invariant
                        self.wf(),
                        i < self.nodes@.len(),
                        self.is_element(i as int),
                        n == self.nodes@[i as int].kids@.len(),
                        0 <= pos <= n,
                        self.text_of(i as int) == out@ + self.kids_text(i as int, pos as int),
                    decreases n - pos,
                {
                    let kid = self.nodes[i].kids[pos];
                    proof {
                        assert(self.node_wf(i as int));
                    }
                    let t = self.text_content(kid);
                    let ghost out_old = out@;
                    out.append(t.as_str());
                    proof {
                        assert(out@ + self.kids_text(i as int, pos + 1) =~= out_old + (t@
                            + self.kids_text(i as int, pos + 1)));
                    }
                    pos = pos + 1;
                }
                proof {
                    assert(out@ + self.kids_text(i as int, n as int) =~= out@);
                }
                out
            },
        }
    }

    /// Collects, in document order, the sites of all descendants of node
    /// `i` that satisfy the criterion.
    pub fn search(&self, i: usize, p: &Pred) -> (r: Vec<(usize, usize)>)
        requires
            self.wf(),
            i < self.nodes@.len(),
        ensures
            sites_view(r@) == self.search_from(i as int, 0, p@),
            forall|k: int|
                0 <= k < r@.len() ==> (#[trigger] r@[k]).0 < self.nodes@.len() && r@[k].1
                    < self.nodes@[r@[k].0 as int].kids@.len(),
        decreases i,
    {
        let mut out: Vec<(usize, usize)> = Vec::new();
        let n = self.nodes[i].kids.len();
        let mut pos: usize = 0;
        while pos < n
            invariant
                self.wf(),
                i < self.nodes@.len(),
                n == self.nodes@[i as int].kids@.len(),
                0 <= pos <= n,
                self.search_from(i as int, 0, p@) == sites_view(out@) + self.search_from(
                    i as int,
                    pos as int,
                    p@,
                ),
                forall|k: int|
                    0 <= k < out@.len() ==> (#[trigger] out@[k]).0 < self.nodes@.len() && out@[k].1
                        < self.nodes@[out@[k].0 as int].kids@.len(),
            decreases n - pos,
        {
            let kid = self.nodes[i].kids[pos];
            proof {
                assert(self.node_wf(i as int));
            }
            let ghost out_before = out@;
            if self.check_match(kid, p) {
                out.push((i, pos));
            }
            let ghost out_mid = out@;
            let mut sub = self.search(kid, p);
            let ghost sub_v = sub@;
            out.append(&mut sub);
            proof {
                let m = if self.node_matches(kid as int, p@) {
                    seq![(i as int, pos as int)]
                } else {
                    Seq::<(int, int)>::empty()
                };
                assert(sites_view(out_mid) =~= sites_view(out_before) + m);
                assert(sites_view(out_mid + sub_v) =~= sites_view(out_mid) + sites_view(sub_v));
                assert(sites_view(out_before) + (m + self.search_from(kid as int, 0, p@)
                    + self.search_from(i as int, pos + 1, p@)) =~= (sites_view(out_before) + m
                    + sites_view(sub_v)) + self.search_from(i as int, pos + 1, p@));
            }
            pos = pos + 1;
        }
        proof {
            assert(sites_view(out@) + self.search_from(i as int, n as int, p@) =~= sites_view(
                out@,
            ));
        }
        out
    }
}

} // verus!
