//! Node tree: a named node with an ordered list of (key, value)
//! properties (duplicate keys kept, in order) and an ordered list of
//! child nodes, together with the recursive decoder that reads one node
//! and all its descendants from the stream.

use crate::lookup::{lookup_parse, table_entries, LookupError, LookupRef, LookupValue};
use crate::reader::{le_u16, IoError, Reader};
use crate::value::{value_parse, ReadValueError, Value, ValueV};
use vstd::prelude::*;

verus! {

/// A decoded node. Mutable during extraction: properties and children
/// are removed as they are consumed, and the remainder stays intact.
#[derive(Debug)]
pub struct Node {
    name: String,
    properties: Vec<(String, Value)>,
    children: Vec<Node>,
}

/// The mathematical form of a node.
pub struct NodeV {
    pub name: Seq<char>,
    pub props: Seq<(Seq<char>, ValueV)>,
    pub children: Seq<NodeV>,
}

/// The views of a sequence of properties, in order.
pub open spec fn props_view(ps: Seq<(String, Value)>) -> Seq<(Seq<char>, ValueV)> {
    Seq::new(ps.len(), |i: int| (ps[i].0@, ps[i].1@))
}

/// The views of a sequence of nodes, in order.
pub closed spec fn nodes_view(nodes: Seq<Node>) -> Seq<NodeV>
    decreases nodes,
{
    if nodes.len() == 0 {
        Seq::empty()
    } else {
        seq![node_view(nodes[0])] + nodes_view(nodes.drop_first())
    }
}

/// The mathematical form of one node.
pub closed spec fn node_view(n: Node) -> NodeV
    decreases n,
{
    NodeV {
        name: n.name@,
        props: props_view(n.properties@),
        children: nodes_view(n.children@),
    }
}

/// The view of a sequence of nodes is its element-wise view.
pub broadcast proof fn lemma_nodes_view(ns: Seq<Node>)
    ensures
        (#[trigger] nodes_view(ns)).len() == ns.len(),
        forall|i: int| 0 <= i < ns.len() ==> #[trigger] nodes_view(ns)[i] == node_view(ns[i]),
    decreases ns.len(),
{
    if ns.len() > 0 {
        lemma_nodes_view(ns.drop_first());
        assert forall|i: int| 0 <= i < ns.len() implies #[trigger] nodes_view(ns)[i]
            == node_view(ns[i]) by {
            if i > 0 {
                assert(nodes_view(ns)[i] == nodes_view(ns.drop_first())[i - 1]);
                assert(ns.drop_first()[i - 1] == ns[i]);
            }
        }
    }
}

impl View for Node {
    type V = NodeV;

    closed spec fn view(&self) -> NodeV {
        node_view(*self)
    }
}

/// The index of the first child with the given name, if any.
pub open spec fn find_child(children: Seq<NodeV>, name: Seq<char>) -> Option<int>
    decreases children.len(),
{
    if children.len() == 0 {
        None
    } else if children[0].name == name {
        Some(0)
    } else {
        match find_child(children.drop_first(), name) {
            None => None,
            Some(i) => Some(i + 1),
        }
    }
}

/// Searching past a prefix without a match finds the same child.
proof fn lemma_find_child_skip(children: Seq<NodeV>, name: Seq<char>, i: int)
    requires
        0 <= i <= children.len(),
        forall|j: int| 0 <= j < i ==> (#[trigger] children[j]).name != name,
    ensures
        find_child(children, name) == match find_child(children.skip(i), name) {
            None => None::<int>,
            Some(k) => Some(i + k),
        },
    decreases i,
{
    if i > 0 {
        lemma_find_child_skip(children.drop_first(), name, i - 1);
        assert(children.drop_first().skip(i - 1) =~= children.skip(i));
        assert(forall|j: int|
            0 <= j < i - 1 ==> (#[trigger] children.drop_first()[j]).name != name);
    } else {
        assert(children.skip(0) =~= children);
    }
}

impl Node {
    /// A node with the given name and no properties or children yet.
    pub fn new(name: String) -> (r: Self)
        ensures
            r@.name == name@,
            r@.props == Seq::<(Seq<char>, ValueV)>::empty(),
            r@.children == Seq::<NodeV>::empty(),
    {
        broadcast use lemma_nodes_view;

        let r = Node { name, properties: Vec::new(), children: Vec::new() };
        proof {
            assert(r@.props =~= Seq::<(Seq<char>, ValueV)>::empty());
            assert(r@.children =~= Seq::<NodeV>::empty());
        }
        r
    }

    /// Appends a property; earlier occurrences of the same key are kept.
    pub fn push_property(&mut self, key: String, value: Value)
        ensures
            final(self)@.name == old(self)@.name,
            final(self)@.props == old(self)@.props.push((key@, value@)),
            final(self)@.children == old(self)@.children,
    {
        broadcast use lemma_nodes_view;

        let ghost k = key@;
        let ghost v = value@;
        self.properties.push((key, value));
        proof {
            assert(self@.props =~= old(self)@.props.push((k, v)));
            assert(self@.children =~= old(self)@.children);
        }
    }

    /// Appends a child node, preserving order.
    pub fn push_child(&mut self, child: Node)
        ensures
            final(self)@.name == old(self)@.name,
            final(self)@.props == old(self)@.props,
            final(self)@.children == old(self)@.children.push(child@),
    {
        broadcast use lemma_nodes_view;

        let ghost c = child@;
        let ghost ch = child;
        self.children.push(child);
        proof {
            assert(self@.props =~= old(self)@.props);
            assert(self.children@ == old(self).children@.push(ch));
            assert(self@.children == nodes_view(self.children@));
            assert(old(self)@.children == nodes_view(old(self).children@));
            assert(c == node_view(ch));
            assert(self@.children =~= old(self)@.children.push(c));
        }
    }

    /// Removes and returns the first child with the given name; the
    /// remaining children keep their order. Yields nothing, and changes
    /// nothing, when no child matches.
    pub fn take_child_with_name(&mut self, name: &str) -> (r: Option<Node>)
        ensures
            match find_child(old(self)@.children, name@) {
                None => r is None && *final(self) == *old(self),
                Some(i) => r matches Some(c) && c@ == old(self)@.children[i]
                    && final(self)@.name == old(self)@.name
                    && final(self)@.props == old(self)@.props
                    && final(self)@.children == old(self)@.children.remove(i),
            },
    {
        broadcast use lemma_nodes_view;

        let ghost cs = self@.children;
        proof {
            assert(cs == nodes_view(self.children@));
        }
        let key = name.to_owned();
        let mut i: usize = 0;
        while i < self.children.len()
            invariant
                self == old(self),
                cs == self@.children,
                key@ == name@,
                0 <= i <= self.children@.len(),
                cs.len() == self.children@.len(),
                forall|j: int| 0 <= j < i ==> (#[trigger] cs[j]).name != name@,
            decreases self.children@.len() - i,
        {
            broadcast use lemma_nodes_view;

            proof {
                assert(self@.children == nodes_view(self.children@));
                assert(cs[i as int] == node_view(self.children@[i as int]));
            }
            if self.children[i].name == key {
                proof {
                    lemma_find_child_skip(cs, name@, i as int);
                    assert(cs.skip(i as int)[0] == cs[i as int]);
                    assert(find_child(cs, name@) == Some(i as int));
                }
                let ghost pre = self.children@;
                let c = self.children.remove(i);
                proof {
                    assert(self.children@ == pre.remove(i as int));
                    assert(self@.children == nodes_view(self.children@));
                    assert(c@ == node_view(c));
                    pre.remove_ensures(i as int);
                    cs.remove_ensures(i as int);
                    assert(self@.children =~= cs.remove(i as int));
                    assert(self@.props =~= old(self)@.props);
                }
                return Some(c);
            }
            i = i + 1;
        }
        proof {
            lemma_find_child_skip(cs, name@, cs.len() as int);
            assert(cs.skip(cs.len() as int).len() == 0);
        }
        None
    }

    /// The node's name.
    pub fn name(&self) -> (r: &str)
        ensures
            r@ == self@.name,
    {
        self.name.as_str()
    }

    /// The properties, in decoded order, duplicates included.
    pub fn properties(&self) -> (r: &[(String, Value)])
        ensures
            r@.len() == self@.props.len(),
            forall|i: int|
                0 <= i < r@.len() ==> ((#[trigger] r@[i]).0@, r@[i].1@) == self@.props[i],
    {
        self.properties.as_slice()
    }

    /// Removes and returns all properties, leaving none behind.
    pub fn take_properties(&mut self) -> (r: Vec<(String, Value)>)
        ensures
            final(self)@.name == old(self)@.name,
            final(self)@.props == Seq::<(Seq<char>, ValueV)>::empty(),
            final(self)@.children == old(self)@.children,
            r@.len() == old(self)@.props.len(),
            forall|i: int|
                0 <= i < r@.len() ==> ((#[trigger] r@[i]).0@, r@[i].1@) == old(self)@.props[i],
    {
        broadcast use lemma_nodes_view;

        let mut out: Vec<(String, Value)> = Vec::new();
        core::mem::swap(&mut self.properties, &mut out);
        proof {
            assert(self@.props =~= Seq::<(Seq<char>, ValueV)>::empty());
            assert(self@.children =~= old(self)@.children);
        }
        out
    }

    /// The children, in decoded order.
    pub fn children(&self) -> (r: &[Node])
        ensures
            r@.len() == self@.children.len(),
            forall|i: int| 0 <= i < r@.len() ==> (#[trigger] r@[i])@ == self@.children[i],
    {
        broadcast use lemma_nodes_view;

        let r = self.children.as_slice();
        proof {
            assert(r@ == self.children@);
            assert(self@.children == nodes_view(self.children@));
            assert(r@.len() == self@.children.len());
        }
        r
    }

    /// Removes and returns all children, leaving none behind.
    pub fn take_children(&mut self) -> (r: Vec<Node>)
        ensures
            final(self)@.name == old(self)@.name,
            final(self)@.props == old(self)@.props,
            final(self)@.children == Seq::<NodeV>::empty(),
            r@.len() == old(self)@.children.len(),
            forall|i: int| 0 <= i < r@.len() ==> (#[trigger] r@[i])@ == old(self)@.children[i],
    {
        broadcast use lemma_nodes_view;

        let mut out: Vec<Node> = Vec::new();
        core::mem::swap(&mut self.children, &mut out);
        proof {
            assert(out@ == old(self).children@);
            assert(old(self)@.children == nodes_view(old(self).children@));
            assert(self@.props =~= old(self)@.props);
            assert(self@.children =~= Seq::<NodeV>::empty());
        }
        out
    }
}

/// Failure of a node decode, saying whether it occurred in the name, a
/// property key, a property value, or a child.
#[derive(Debug, PartialEq, Eq)]
pub enum NodeReadError {
    Io(IoError),
    NameLookupError(LookupError),
    PropertyKeyLookupError(LookupError),
    PropertyValueError(ReadValueError),
    ChildError(Box<NodeReadError>),
}

/// The rest of the input after consuming `n` bytes; consuming an
/// impossible count leaves nothing.
pub open spec fn advance(s: Seq<u8>, n: int) -> Seq<u8> {
    if 0 <= n <= s.len() {
        s.skip(n)
    } else {
        Seq::empty()
    }
}

/// Decodes `count` (key, value) property pairs from the front of `s`.
/// Yields the pairs and the number of bytes consumed, or the exact
/// error the decoder reports.
pub open spec fn props_parse(s: Seq<u8>, table: Option<Seq<Seq<char>>>, count: nat) -> Result<
    (Seq<(Seq<char>, ValueV)>, int),
    NodeReadError,
>
    decreases s.len(), count,
{
    if count == 0 {
        Ok((Seq::empty(), 0))
    } else {
        match lookup_parse(s, table) {
            Err(e) => Err(NodeReadError::PropertyKeyLookupError(e)),
            Ok((key, n1)) => match value_parse(advance(s, n1), table) {
                Err(e) => Err(NodeReadError::PropertyValueError(e)),
                Ok((v, n2)) => match props_parse(
                    advance(advance(s, n1), n2),
                    table,
                    (count - 1) as nat,
                ) {
                    Err(e) => Err(e),
                    Ok((rest, n3)) => Ok((seq![(key, v)] + rest, n1 + n2 + n3)),
                },
            },
        }
    }
}

/// Decodes `count` child nodes from the front of `s`. Yields the nodes
/// and the number of bytes consumed; a failing child's error is wrapped
/// once at each nesting level.
pub open spec fn children_parse(s: Seq<u8>, table: Option<Seq<Seq<char>>>, count: nat) -> Result<
    (Seq<NodeV>, int),
    NodeReadError,
>
    decreases s.len(), count,
{
    if count == 0 {
        Ok((Seq::empty(), 0))
    } else {
        match node_parse(s, table) {
            Err(e) => Err(NodeReadError::ChildError(Box::new(e))),
            Ok((child, n1)) => match children_parse(advance(s, n1), table, (count - 1) as nat) {
                Err(e) => Err(e),
                Ok((rest, n2)) => Ok((seq![child] + rest, n1 + n2)),
            },
        }
    }
}

/// Decodes one node from the front of `s`, in strict order: the
/// lookup-indexed name, a one-byte property count and that many
/// properties, then a two-byte child count and that many children,
/// recursively. Yields the node and the number of bytes consumed, or
/// the exact error the decoder reports.
pub open spec fn node_parse(s: Seq<u8>, table: Option<Seq<Seq<char>>>) -> Result<
    (NodeV, int),
    NodeReadError,
>
    decreases s.len(), 0nat,
{
    match lookup_parse(s, table) {
        Err(e) => Err(NodeReadError::NameLookupError(e)),
        Ok((name, n1)) => {
            let s1 = advance(s, n1);
            if s1.len() < 1 {
                Err(NodeReadError::Io(IoError::UnexpectedEnd))
            } else {
                match props_parse(advance(s1, 1), table, s1[0] as nat) {
                    Err(e) => Err(e),
                    Ok((props, n2)) => {
                        let s2 = advance(advance(s1, 1), n2);
                        if s2.len() < 2 {
                            Err(NodeReadError::Io(IoError::UnexpectedEnd))
                        } else {
                            match children_parse(
                                advance(s2, 2),
                                table,
                                le_u16(s2[0], s2[1]) as nat,
                            ) {
                                Err(e) => Err(e),
                                Ok((children, n3)) => Ok(
                                    (NodeV { name, props, children }, n1 + 1 + n2 + 2 + n3),
                                ),
                            }
                        }
                    },
                }
            }
        },
    }
}

impl Node {
    /// Reads one node and, recursively, all its descendants. Any
    /// failure at any nesting level aborts the whole decode; no partial
    /// tree is returned.
    #[verifier::rlimit(100)]
    pub fn read(r: &mut Reader, lookup: Option<LookupRef<'_>>) -> (res: Result<
        Node,
        NodeReadError,
    >)
        requires
            old(r).wf(),
        ensures
            final(r).wf(),
            final(r).bytes() == old(r).bytes(),
            old(r).position() <= final(r).position(),
            match res {
                Ok(node) => node_parse(old(r).remaining(), table_entries(lookup)) matches Ok(
                    (nv, n),
                ) && node@ == nv && final(r).position() == old(r).position() + n,
                Err(e) => node_parse(old(r).remaining(), table_entries(lookup)) == Err::<
                    (NodeV, int),
                    _,
                >(e),
            },
        decreases old(r).bytes().len() - old(r).position(),
    {
        let ghost s = old(r).remaining();
        let ghost t = table_entries(lookup);
        let name = match LookupValue::read(r, lookup) {
            Ok(v) => v.0,
            Err(e) => {
                return Err(NodeReadError::NameLookupError(e));
            },
        };
        let ghost name_v = name@;
        proof {
            assert(r.remaining() =~= advance(s, 2));
        }
        let prop_count = match r.read_u8() {
            Ok(b) => b,
            Err(e) => {
                return Err(NodeReadError::Io(e));
            },
        };
        let ghost s2 = advance(advance(s, 2), 1);
        proof {
            assert(advance(s, 2)[0] == prop_count);
            assert(r.remaining() =~= s2);
        }
        let mut node = Node::new(name);
        let mut i: u8 = 0;
        while i < prop_count
            invariant
                old(r).wf(),
                r.wf(),
                r.bytes() == old(r).bytes(),
                t == table_entries(lookup),
                s == old(r).remaining(),
                lookup_parse(s, t) == Ok::<(Seq<char>, int), LookupError>((name_v, 2int)),
                advance(s, 2).len() >= 1,
                advance(s, 2)[0] == prop_count,
                s2 == advance(advance(s, 2), 1),
                0 <= i <= prop_count,
                r.position() >= old(r).position() + 3,
                node@.name == name_v,
                node@.children.len() == 0,
                match props_parse(r.remaining(), t, (prop_count - i) as nat) {
                    Err(e) => props_parse(s2, t, prop_count as nat) == Err::<
                        (Seq<(Seq<char>, ValueV)>, int),
                        _,
                    >(e),
                    Ok((rest, m)) => props_parse(s2, t, prop_count as nat) matches Ok((all, m2))
                        && all == node@.props + rest && m2 == (r.position() - old(r).position()
                        - 3) + m,
                },
            decreases prop_count - i,
        {
            let ghost rem0 = r.remaining();
            let ghost left = (prop_count - i) as nat;
            let key = match LookupValue::read(r, lookup) {
                Ok(v) => v.0,
                Err(e) => {
                    proof {
                        assert(props_parse(rem0, t, left) == Err::<
                            (Seq<(Seq<char>, ValueV)>, int),
                            _,
                        >(NodeReadError::PropertyKeyLookupError(e)));
                    }
                    return Err(NodeReadError::PropertyKeyLookupError(e));
                },
            };
            let ghost key_v = key@;
            proof {
                assert(r.remaining() =~= advance(rem0, 2));
            }
            let ghost rem1 = r.remaining();
            let value = match Value::read(r, lookup) {
                Ok(v) => v,
                Err(e) => {
                    proof {
                        assert(props_parse(rem0, t, left) == Err::<
                            (Seq<(Seq<char>, ValueV)>, int),
                            _,
                        >(NodeReadError::PropertyValueError(e)));
                    }
                    return Err(NodeReadError::PropertyValueError(e));
                },
            };
            let ghost val_v = value@;
            let ghost n2 = r.position() - (r.bytes().len() - rem1.len());
            proof {
                assert(value_parse(rem1, t) matches Ok((w, m)) && m == n2);
                assert(r.remaining() =~= advance(rem1, n2));
            }
            node.push_property(key, value);
            proof {
                match props_parse(r.remaining(), t, (left - 1) as nat) {
                    Err(e) => {
                        assert(props_parse(rem0, t, left) == Err::<
                            (Seq<(Seq<char>, ValueV)>, int),
                            _,
                        >(e));
                    },
                    Ok((rest2, m)) => {
                        assert(props_parse(rem0, t, left) == Ok::<_, NodeReadError>(
                            (seq![(key_v, val_v)] + rest2, 2 + n2 + m),
                        ));
                        assert((node@.props.drop_last()) + (seq![(key_v, val_v)] + rest2)
                            =~= node@.props + rest2);
                    },
                }
            }
            i = i + 1;
        }
        proof {
            assert(props_parse(r.remaining(), t, 0) == Ok::<_, NodeReadError>(
                (Seq::<(Seq<char>, ValueV)>::empty(), 0int),
            ));
            match props_parse(s2, t, prop_count as nat) {
                Ok((all, m2)) => {
                    assert(node@.props + Seq::<(Seq<char>, ValueV)>::empty() =~= node@.props);
                },
                Err(_) => {
                    assert(false);
                },
            }
        }
        let ghost s3 = r.remaining();
        let ghost m2 = r.position() - old(r).position() - 3;
        proof {
            assert(s3 =~= advance(s2, m2));
        }
        let child_count = match r.read_u16() {
            Ok(v) => v,
            Err(e) => {
                return Err(NodeReadError::Io(e));
            },
        };
        let ghost s4 = advance(s3, 2);
        proof {
            assert(le_u16(s3[0], s3[1]) == child_count);
            assert(r.remaining() =~= s4);
        }
        let mut j: u16 = 0;
        while j < child_count
            invariant
                old(r).wf(),
                r.wf(),
                r.bytes() == old(r).bytes(),
                t == table_entries(lookup),
                s == old(r).remaining(),
                lookup_parse(s, t) == Ok::<(Seq<char>, int), LookupError>((name_v, 2int)),
                advance(s, 2).len() >= 1,
                advance(s, 2)[0] == prop_count,
                s2 == advance(advance(s, 2), 1),
                props_parse(s2, t, prop_count as nat) == Ok::<_, NodeReadError>(
                    (node@.props, m2),
                ),
                s3 == advance(s2, m2),
                s3.len() >= 2,
                le_u16(s3[0], s3[1]) == child_count,
                s4 == advance(s3, 2),
                0 <= j <= child_count,
                r.position() >= old(r).position() + 5 + m2,
                m2 >= 0,
                node@.name == name_v,
                match children_parse(r.remaining(), t, (child_count - j) as nat) {
                    Err(e) => children_parse(s4, t, child_count as nat) == Err::<
                        (Seq<NodeV>, int),
                        _,
                    >(e),
                    Ok((rest, m)) => children_parse(s4, t, child_count as nat) matches Ok(
                        (all, m3),
                    ) && all == node@.children + rest && m3 == (r.position() - old(r).position()
                        - 5 - m2) + m,
                },
            decreases child_count - j,
        {
            let ghost rem0 = r.remaining();
            let ghost left = (child_count - j) as nat;
            let child = match Node::read(r, lookup) {
                Ok(c) => c,
                Err(e) => {
                    proof {
                        assert(children_parse(rem0, t, left) == Err::<(Seq<NodeV>, int), _>(
                            NodeReadError::ChildError(Box::new(e)),
                        ));
                    }
                    return Err(NodeReadError::ChildError(Box::new(e)));
                },
            };
            let ghost child_v = child@;
            let ghost n1 = r.position() - (r.bytes().len() - rem0.len());
            proof {
                assert(node_parse(rem0, t) matches Ok((cv, m)) && m == n1);
                assert(r.remaining() =~= advance(rem0, n1));
            }
            node.push_child(child);
            proof {
                match children_parse(r.remaining(), t, (left - 1) as nat) {
                    Err(e) => {
                        assert(children_parse(rem0, t, left) == Err::<(Seq<NodeV>, int), _>(e));
                    },
                    Ok((rest2, m)) => {
                        assert(children_parse(rem0, t, left) == Ok::<_, NodeReadError>(
                            (seq![child_v] + rest2, n1 + m),
                        ));
                        assert((node@.children.drop_last()) + (seq![child_v] + rest2)
                            =~= node@.children + rest2);
                    },
                }
            }
            j = j + 1;
        }
        proof {
            assert(children_parse(r.remaining(), t, 0) == Ok::<_, NodeReadError>(
                (Seq::<NodeV>::empty(), 0int),
            ));
            match children_parse(s4, t, child_count as nat) {
                Ok((all, m3)) => {
                    assert(node@.children + Seq::<NodeV>::empty() =~= node@.children);
                },
                Err(_) => {
                    assert(false);
                },
            }
            assert(node@ =~~= (NodeV {
                name: name_v,
                props: node@.props,
                children: node@.children,
            }));
        }
        Ok(node)
    }
}

} // verus!
