//! Document decoder: validates the fixed magic header, reads the
//! document name, builds the lookup table, decodes the root node with
//! it, and hands the tree to the extraction layers.

use crate::filler::{extract_fillers, read_fillers, Filler, FillerV, FillersDecodeError};
use crate::lookup::{Lookup, LookupRef};
use crate::node::{advance, find_child, node_parse, Node, NodeReadError, NodeV};
use crate::reader::{le_u16, IoError, Reader};
use crate::screen::{decode_screens, extract_screens, Screen, ScreenV, ScreensDecodeError};
use crate::strings::{lp_parse, NonRleString, StringReadError};
use vstd::prelude::*;

verus! {

/// A decoded document: its name, the unread remainder of the root node,
/// and the extracted record collections, in source order.
#[derive(Debug)]
pub struct CelesteMap {
    name: String,
    unread: Node,
    fillers: Vec<Filler>,
    screens: Vec<Screen>,
}

/// The mathematical form of a document.
pub struct MapV {
    pub name: Seq<char>,
    pub unread: NodeV,
    pub fillers: Seq<FillerV>,
    pub screens: Seq<ScreenV>,
}

impl View for CelesteMap {
    type V = MapV;

    closed spec fn view(&self) -> MapV {
        MapV {
            name: self.name@,
            unread: self.unread@,
            fillers: Seq::new(self.fillers@.len(), |i: int| self.fillers@[i]@),
            screens: Seq::new(self.screens@.len(), |i: int| self.screens@[i]@),
        }
    }
}

/// Failure of a document decode, wrapping the failing layer's error.
#[derive(Debug, PartialEq, Eq)]
pub enum CelesteMapReadError {
    Io(IoError),
    GivenLookup,
    MalformedHeader(StringReadError),
    IncorrectHeader,
    MapNameError(StringReadError),
    RootNodeError(NodeReadError),
    FillersDecodeError(FillersDecodeError),
    ScreensDecodeError(ScreensDecodeError),
}

/// Decodes `count` length-prefixed lookup entries from the front of
/// `s`; table entries never use lookup indirection themselves.
pub open spec fn table_parse(s: Seq<u8>, count: nat) -> Result<(Seq<Seq<char>>, int), StringReadError>
    decreases count,
{
    if count == 0 {
        Ok((Seq::empty(), 0))
    } else {
        match lp_parse(s) {
            Err(e) => Err(e),
            Ok((entry, n)) => match table_parse(advance(s, n), (count - 1) as nat) {
                Err(e) => Err(e),
                Ok((rest, m)) => Ok((seq![entry] + rest, n + m)),
            },
        }
    }
}

/// Filler extraction as the document decoder applies it: a tree without
/// a `Filler` child simply has no fillers.
pub open spec fn fillers_stage(root: NodeV) -> Result<(Seq<FillerV>, NodeV), FillersDecodeError> {
    match extract_fillers(root) {
        Err(FillersDecodeError::MissingFillerNode) => Ok((Seq::empty(), root)),
        r => r,
    }
}

/// Screen extraction as the document decoder applies it: a tree without
/// a `levels` child simply has no screens.
pub open spec fn screens_stage(root: NodeV) -> Result<(Seq<ScreenV>, NodeV), ScreensDecodeError> {
    match extract_screens(root) {
        Err(ScreensDecodeError::MissingLevelsNode) => Ok((Seq::empty(), root)),
        r => r,
    }
}

/// What remains of a document parse once the header and name are read:
/// the lookup table, the root node, then the two extraction stages.
pub open spec fn map_reduced(s3: Seq<u8>, count: nat, name: Seq<char>) -> Result<
    MapV,
    CelesteMapReadError,
> {
    match table_parse(s3, count) {
        Err(e) => Err(CelesteMapReadError::MapNameError(e)),
        Ok((table, n2)) => match node_parse(advance(s3, n2), Some(table)) {
            Err(e) => Err(CelesteMapReadError::RootNodeError(e)),
            Ok((root, n3)) => match fillers_stage(root) {
                Err(e) => Err(CelesteMapReadError::FillersDecodeError(e)),
                Ok((fs, root1)) => match screens_stage(root1) {
                    Err(e) => Err(CelesteMapReadError::ScreensDecodeError(e)),
                    Ok((ss, root2)) => Ok(
                        MapV { name, unread: root2, fillers: fs, screens: ss },
                    ),
                },
            },
        },
    }
}

/// Decodes a whole document from the front of `s`: the magic header,
/// the document name, the lookup table, the root node, then the two
/// extraction stages. Yields the document, or the exact error the
/// decoder reports; trailing bytes are ignored.
pub open spec fn map_parse(s: Seq<u8>) -> Result<MapV, CelesteMapReadError> {
    match lp_parse(s) {
        Err(e) => Err(CelesteMapReadError::MalformedHeader(e)),
        Ok((header, n0)) => if header != "CELESTE MAP"@ {
            Err(CelesteMapReadError::IncorrectHeader)
        } else {
            let s1 = advance(s, n0);
            match lp_parse(s1) {
                Err(e) => Err(CelesteMapReadError::MapNameError(e)),
                Ok((name, n1)) => {
                    let s2 = advance(s1, n1);
                    if s2.len() < 2 {
                        Err(CelesteMapReadError::Io(IoError::UnexpectedEnd))
                    } else {
                        map_reduced(advance(s2, 2), le_u16(s2[0], s2[1]) as nat, name)
                    }
                },
            }
        },
    }
}

impl CelesteMap {
    /// An empty document with the given name and a bare `Map` root.
    pub fn new(name: String) -> (r: Self)
        ensures
            r@.name == name@,
            r@.unread.name == "Map"@,
            r@.unread.props.len() == 0,
            r@.unread.children.len() == 0,
            r@.fillers == Seq::<FillerV>::empty(),
            r@.screens == Seq::<ScreenV>::empty(),
    {
        let r = CelesteMap {
            name,
            unread: Node::new("Map".to_owned()),
            fillers: Vec::new(),
            screens: Vec::new(),
        };
        proof {
            assert(r@.fillers =~= Seq::<FillerV>::empty());
            assert(r@.screens =~= Seq::<ScreenV>::empty());
        }
        r
    }

    /// The document's name.
    pub fn name(&self) -> (r: &str)
        ensures
            r@ == self@.name,
    {
        self.name.as_str()
    }

    /// The unread remainder of the root node.
    pub fn unread(&self) -> (r: &Node)
        ensures
            r@ == self@.unread,
    {
        &self.unread
    }

    /// The extracted fillers, in source order.
    pub fn fillers(&self) -> (r: &[Filler])
        ensures
            r@.len() == self@.fillers.len(),
            forall|i: int| 0 <= i < r@.len() ==> (#[trigger] r@[i])@ == self@.fillers[i],
    {
        self.fillers.as_slice()
    }

    /// The extracted screens, in source order.
    pub fn screens(&self) -> (r: &[Screen])
        ensures
            r@.len() == self@.screens.len(),
            forall|i: int| 0 <= i < r@.len() ==> (#[trigger] r@[i])@ == self@.screens[i],
    {
        self.screens.as_slice()
    }

    /// Removes and returns the first child of the unread remainder with
    /// the given name, the remaining children keeping their order;
    /// yields nothing, and changes nothing, when no child matches.
    pub(crate) fn take_unread_child(&mut self, name: &str) -> (r: Option<Node>)
        ensures
            final(self)@.name == old(self)@.name,
            final(self)@.fillers == old(self)@.fillers,
            final(self)@.screens == old(self)@.screens,
            match find_child(old(self)@.unread.children, name@) {
                None => r is None && *final(self) == *old(self),
                Some(i) => r matches Some(c) && c@ == old(self)@.unread.children[i]
                    && final(self)@.unread.name == old(self)@.unread.name
                    && final(self)@.unread.props == old(self)@.unread.props
                    && final(self)@.unread.children == old(self)@.unread.children.remove(i),
            },
    {
        self.unread.take_child_with_name(name)
    }

    /// Appends an extracted filler.
    pub(crate) fn push_filler(&mut self, f: Filler)
        ensures
            final(self)@.name == old(self)@.name,
            final(self)@.unread == old(self)@.unread,
            final(self)@.screens == old(self)@.screens,
            final(self)@.fillers == old(self)@.fillers.push(f@),
    {
        let ghost fv = f@;
        self.fillers.push(f);
        proof {
            assert(self@.fillers =~= old(self)@.fillers.push(fv));
            assert(self@.screens =~= old(self)@.screens);
        }
    }

    /// Appends an extracted screen.
    pub(crate) fn push_screen(&mut self, s: Screen)
        ensures
            final(self)@.name == old(self)@.name,
            final(self)@.unread == old(self)@.unread,
            final(self)@.fillers == old(self)@.fillers,
            final(self)@.screens == old(self)@.screens.push(s@),
    {
        let ghost sv = s@;
        self.screens.push(s);
        proof {
            assert(self@.screens =~= old(self)@.screens.push(sv));
            assert(self@.fillers =~= old(self)@.fillers);
        }
    }

    /// Decodes a document from a byte buffer.
    pub fn read(data: Vec<u8>) -> (res: Result<CelesteMap, CelesteMapReadError>)
        ensures
            match res {
                Ok(m) => map_parse(data@) matches Ok(mv) && m@ == mv,
                Err(e) => map_parse(data@) == Err::<MapV, _>(e),
            },
    {
        let mut r = Reader::new(data);
        proof {
            assert(r.remaining() =~= data@);
        }
        Self::read_from(&mut r, None)
    }

    /// Decodes a document from the stream. A document is always its own
    /// lookup root: being handed an external lookup table is rejected
    /// outright with `GivenLookup`.
    #[verifier::rlimit(100)]
    pub fn read_from(r: &mut Reader, lookup: Option<LookupRef<'_>>) -> (res: Result<
        CelesteMap,
        CelesteMapReadError,
    >)
        requires
            old(r).wf(),
        ensures
            final(r).wf(),
            final(r).bytes() == old(r).bytes(),
            old(r).position() <= final(r).position(),
            lookup is Some ==> res == Err::<CelesteMap, _>(CelesteMapReadError::GivenLookup),
            lookup is None ==> match res {
                Ok(m) => map_parse(old(r).remaining()) matches Ok(mv) && m@ == mv,
                Err(e) => map_parse(old(r).remaining()) == Err::<MapV, _>(e),
            },
    {
        if lookup.is_some() {
            return Err(CelesteMapReadError::GivenLookup);
        }
        let ghost s = old(r).remaining();
        let header = match NonRleString::decode(r) {
            Ok(v) => v.0,
            Err(e) => {
                return Err(CelesteMapReadError::MalformedHeader(e));
            },
        };
        let magic: String = "CELESTE MAP".to_owned();
        if header != magic {
            return Err(CelesteMapReadError::IncorrectHeader);
        }
        let ghost n0 = r.position() - old(r).position();
        let ghost s1 = advance(s, n0);
        proof {
            assert(r.remaining() =~= s1);
        }
        let name = match NonRleString::decode(r) {
            Ok(v) => v.0,
            Err(e) => {
                return Err(CelesteMapReadError::MapNameError(e));
            },
        };
        let ghost nv = name@;
        let ghost n1 = r.position() - old(r).position() - n0;
        let ghost s2 = advance(s1, n1);
        proof {
            assert(r.remaining() =~= s2);
        }
        let count = match r.read_u16() {
            Ok(v) => v,
            Err(e) => {
                return Err(CelesteMapReadError::Io(e));
            },
        };
        let ghost s3 = advance(s2, 2);
        let ghost pos3 = r.position();
        proof {
            assert(le_u16(s2[0], s2[1]) == count);
            assert(r.remaining() =~= s3);
            assert(map_parse(s) == map_reduced(s3, count as nat, nv));
        }
        let mut entries: Vec<String> = Vec::new();
        let mut i: u16 = 0;
        proof {
            assert(entries.deep_view() =~= Seq::<Seq<char>>::empty());
            match table_parse(s3, count as nat) {
                Err(_) => {},
                Ok((all, m)) => {
                    assert(Seq::<Seq<char>>::empty() + all =~= all);
                },
            }
        }
        while i < count
            invariant
                lookup is None,
                old(r).wf(),
                r.wf(),
                r.bytes() == old(r).bytes(),
                0 <= i <= count,
                old(r).position() <= pos3 <= r.position(),
                s == old(r).remaining(),
                map_parse(s) == map_reduced(s3, count as nat, nv),
                match table_parse(r.remaining(), (count - i) as nat) {
                    Err(e) => table_parse(s3, count as nat) == Err::<(Seq<Seq<char>>, int), _>(e),
                    Ok((rest, m)) => table_parse(s3, count as nat) matches Ok((all, m2)) && all
                        == entries.deep_view() + rest && m2 == (r.position() - pos3) + m,
                },
            decreases count - i,
        {
            let ghost rem0 = r.remaining();
            let ghost done = entries.deep_view();
            let entry = match NonRleString::decode(r) {
                Ok(v) => v.0,
                Err(e) => {
                    return Err(CelesteMapReadError::MapNameError(e));
                },
            };
            let ghost ev = entry@;
            let ghost n = r.position() - (r.bytes().len() - rem0.len());
            proof {
                assert(r.remaining() =~= advance(rem0, n));
            }
            entries.push(entry);
            proof {
                assert(entries.deep_view() =~= done.push(ev));
                match table_parse(r.remaining(), (count - i - 1) as nat) {
                    Err(_) => {},
                    Ok((rest, m)) => {
                        assert(table_parse(rem0, (count - i) as nat) == Ok::<
                            _,
                            StringReadError,
                        >((seq![ev] + rest, n + m)));
                        assert((done.push(ev)) + rest =~= done + (seq![ev] + rest));
                    },
                }
            }
            i = i + 1;
        }
        let ghost table = entries.deep_view();
        let ghost n2 = r.position() - pos3;
        proof {
            assert(table_parse(r.remaining(), 0) == Ok::<_, StringReadError>(
                (Seq::<Seq<char>>::empty(), 0int),
            ));
            match table_parse(s3, count as nat) {
                Err(_) => {
                    assert(false);
                },
                Ok((all, m2)) => {
                    assert(entries.deep_view() + Seq::<Seq<char>>::empty() =~= entries.deep_view());
                },
            }
            assert(table_parse(s3, count as nat) == Ok::<_, StringReadError>((table, n2)));
            assert(r.remaining() =~= advance(s3, n2));
        }
        let lookup_table = Lookup::new(entries);
        let root = match Node::read(r, Some(lookup_table.as_ref())) {
            Ok(n) => n,
            Err(e) => {
                return Err(CelesteMapReadError::RootNodeError(e));
            },
        };
        let mut map = CelesteMap::new(name);
        map.unread = root;
        proof {
            assert(map@.fillers =~= Seq::<FillerV>::empty());
            assert(map@.screens =~= Seq::<ScreenV>::empty());
        }
        let ghost root_v = map@.unread;
        match read_fillers(&mut map) {
            Ok(_) => {
                proof {
                    match fillers_stage(root_v) {
                        Ok((fs, root1)) => {
                            assert(Seq::<FillerV>::empty() + fs =~= fs);
                        },
                        Err(_) => {},
                    }
                }
            },
            Err(e) => {
                match e {
                    FillersDecodeError::MissingFillerNode => {},
                    _ => {
                        return Err(CelesteMapReadError::FillersDecodeError(e));
                    },
                }
            },
        }
        let ghost root1_v = map@.unread;
        match decode_screens(&mut map) {
            Ok(_) => {
                proof {
                    match screens_stage(root1_v) {
                        Ok((ss, root2)) => {
                            assert(Seq::<ScreenV>::empty() + ss =~= ss);
                        },
                        Err(_) => {},
                    }
                }
            },
            Err(e) => {
                match e {
                    ScreensDecodeError::MissingLevelsNode => {},
                    _ => {
                        return Err(CelesteMapReadError::ScreensDecodeError(e));
                    },
                }
            },
        }
        Ok(map)
    }
}

} // verus!
