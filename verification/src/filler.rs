//! Filler records: rectangular regions extracted from the `Filler`
//! child of the decoded tree, one record per `rect` child.

use crate::geom::{IntRect, Point, Rect, Size};
use crate::map::CelesteMap;
use crate::node::{find_child, Node, NodeV};
use crate::value::{value_to_int, value_to_uint, ValueV};
use vstd::prelude::*;

verus! {

/// A filler: one rectangle, with nothing else attached.
#[derive(Debug, Clone)]
pub struct Filler {
    rect: IntRect,
}

/// The mathematical form of a filler: its rectangle's coordinates.
pub struct FillerV {
    pub x: i32,
    pub y: i32,
    pub w: u32,
    pub h: u32,
}

impl View for Filler {
    type V = FillerV;

    closed spec fn view(&self) -> FillerV {
        FillerV {
            x: self.rect.spec_position().spec_x(),
            y: self.rect.spec_position().spec_y(),
            w: self.rect.spec_size().spec_width(),
            h: self.rect.spec_size().spec_height(),
        }
    }
}

impl Filler {
    pub fn new(rect: IntRect) -> (r: Self)
        ensures
            r@.x == rect.spec_position().spec_x(),
            r@.y == rect.spec_position().spec_y(),
            r@.w == rect.spec_size().spec_width(),
            r@.h == rect.spec_size().spec_height(),
    {
        Filler { rect }
    }

    /// The rectangle this record covers.
    pub fn shape(&self) -> (r: IntRect)
        ensures
            r.spec_position().spec_x() == self@.x,
            r.spec_position().spec_y() == self@.y,
            r.spec_size().spec_width() == self@.w,
            r.spec_size().spec_height() == self@.h,
    {
        self.rect
    }
}

/// Failure of filler extraction, naming the missing or ill-typed field.
#[derive(Debug, Clone, Copy, PartialEq, Eq)]
pub enum FillersDecodeError {
    MissingFillerNode,
    MissingX,
    XNotInt,
    MissingY,
    YNotInt,
    MissingWidth,
    WidthNotInt,
    MissingHeight,
    HeightNotInt,
}

/// Walks the properties in order, remembering the latest `x`, `y`, `w`
/// and `h` values; a matching key whose value has the wrong type stops
/// the walk with that field's error.
pub open spec fn filler_scan(
    props: Seq<(Seq<char>, ValueV)>,
    x: Option<i32>,
    y: Option<i32>,
    w: Option<u32>,
    h: Option<u32>,
) -> Result<(Option<i32>, Option<i32>, Option<u32>, Option<u32>), FillersDecodeError>
    decreases props.len(),
{
    if props.len() == 0 {
        Ok((x, y, w, h))
    } else {
        let key = props[0].0;
        let v = props[0].1;
        let rest = props.drop_first();
        if key == "x"@ {
            match value_to_int(v) {
                Some(n) => filler_scan(rest, Some(n), y, w, h),
                None => Err(FillersDecodeError::XNotInt),
            }
        } else if key == "y"@ {
            match value_to_int(v) {
                Some(n) => filler_scan(rest, x, Some(n), w, h),
                None => Err(FillersDecodeError::YNotInt),
            }
        } else if key == "w"@ {
            match value_to_uint(v) {
                Some(n) => filler_scan(rest, x, y, Some(n), h),
                None => Err(FillersDecodeError::WidthNotInt),
            }
        } else if key == "h"@ {
            match value_to_uint(v) {
                Some(n) => filler_scan(rest, x, y, w, Some(n)),
                None => Err(FillersDecodeError::HeightNotInt),
            }
        } else {
            filler_scan(rest, x, y, w, h)
        }
    }
}

/// A property walk never reports the document-level missing-node error.
proof fn lemma_filler_scan_no_missing(
    props: Seq<(Seq<char>, ValueV)>,
    x: Option<i32>,
    y: Option<i32>,
    w: Option<u32>,
    h: Option<u32>,
)
    ensures
        filler_scan(props, x, y, w, h) != Err::<
            (Option<i32>, Option<i32>, Option<u32>, Option<u32>),
            FillersDecodeError,
        >(FillersDecodeError::MissingFillerNode),
    decreases props.len(),
{
    if props.len() > 0 {
        let key = props[0].0;
        let v = props[0].1;
        let rest = props.drop_first();
        if key == "x"@ {
            match value_to_int(v) {
                Some(n) => lemma_filler_scan_no_missing(rest, Some(n), y, w, h),
                None => (),
            }
        } else if key == "y"@ {
            match value_to_int(v) {
                Some(n) => lemma_filler_scan_no_missing(rest, x, Some(n), w, h),
                None => (),
            }
        } else if key == "w"@ {
            match value_to_uint(v) {
                Some(n) => lemma_filler_scan_no_missing(rest, x, y, Some(n), h),
                None => (),
            }
        } else if key == "h"@ {
            match value_to_uint(v) {
                Some(n) => lemma_filler_scan_no_missing(rest, x, y, w, Some(n)),
                None => (),
            }
        } else {
            lemma_filler_scan_no_missing(rest, x, y, w, h);
        }
    }
}

/// One node's filler never fails with the document-level missing-node
/// error.
pub proof fn lemma_filler_from_node_no_missing(n: NodeV)
    ensures
        filler_from_node(n) != Err::<FillerV, _>(FillersDecodeError::MissingFillerNode),
{
    lemma_filler_scan_no_missing(n.props, None, None, None, None);
}

/// The filler one node yields: its four named fields, each required.
pub open spec fn filler_from_node(n: NodeV) -> Result<FillerV, FillersDecodeError> {
    match filler_scan(n.props, None, None, None, None) {
        Err(e) => Err(e),
        Ok((x, y, w, h)) => match x {
            None => Err(FillersDecodeError::MissingX),
            Some(x) => match y {
                None => Err(FillersDecodeError::MissingY),
                Some(y) => match w {
                    None => Err(FillersDecodeError::MissingWidth),
                    Some(w) => match h {
                        None => Err(FillersDecodeError::MissingHeight),
                        Some(h) => Ok(FillerV { x, y, w, h }),
                    },
                },
            },
        },
    }
}

/// The fillers a child list yields, in order; the first failing child
/// aborts the extraction.
pub open spec fn fillers_from_children(children: Seq<NodeV>) -> Result<
    Seq<FillerV>,
    FillersDecodeError,
>
    decreases children.len(),
{
    if children.len() == 0 {
        Ok(Seq::empty())
    } else {
        match filler_from_node(children[0]) {
            Err(e) => Err(e),
            Ok(f) => match fillers_from_children(children.drop_first()) {
                Err(e) => Err(e),
                Ok(rest) => Ok(seq![f] + rest),
            },
        }
    }
}

/// What filler extraction does to a tree: the first `Filler` child is
/// removed (the remaining children keep their order) and each of its
/// children becomes one filler; a tree without a `Filler` child fails
/// with `MissingFillerNode`.
pub open spec fn extract_fillers(root: NodeV) -> Result<(Seq<FillerV>, NodeV), FillersDecodeError> {
    match find_child(root.children, "Filler"@) {
        None => Err(FillersDecodeError::MissingFillerNode),
        Some(i) => {
            let node = root.children[i];
            let rest = NodeV {
                name: root.name,
                props: root.props,
                children: root.children.remove(i),
            };
            match fillers_from_children(node.children) {
                Err(e) => Err(e),
                Ok(fs) => Ok((fs, rest)),
            }
        },
    }
}

/// Extracts one filler from one child node. The child's name is not
/// checked; its properties are read in order, the last occurrence of
/// each field winning, and the whole node is consumed.
fn filler_of_node(child: &Node) -> (res: Result<Filler, FillersDecodeError>)
    ensures
        match filler_from_node(child@) {
            Ok(fv) => res matches Ok(f) && f@ == fv,
            Err(e) => res == Err::<Filler, _>(e),
        },
{
    let ghost cv = child@;
    let props = child.properties();
    let key_x: String = "x".to_owned();
    let key_y: String = "y".to_owned();
    let key_w: String = "w".to_owned();
    let key_h: String = "h".to_owned();
    let mut x: Option<i32> = None;
    let mut y: Option<i32> = None;
    let mut w: Option<u32> = None;
    let mut h: Option<u32> = None;
    let mut p: usize = 0;
    proof {
        assert(cv.props.skip(0) =~= cv.props);
    }
    while p < props.len()
        invariant
            cv == child@,
            props@.len() == cv.props.len(),
            forall|i: int|
                0 <= i < props@.len() ==> ((#[trigger] props@[i]).0@, props@[i].1@) == cv.props[i],
            key_x@ == "x"@,
            key_y@ == "y"@,
            key_w@ == "w"@,
            key_h@ == "h"@,
            0 <= p <= props@.len(),
            filler_scan(cv.props, None, None, None, None) == filler_scan(
                cv.props.skip(p as int),
                x,
                y,
                w,
                h,
            ),
        decreases props@.len() - p,
    {
        proof {
            assert(cv.props.skip(p as int)[0] == cv.props[p as int]);
            assert(cv.props.skip(p as int).drop_first() =~= cv.props.skip(p as int + 1));
        }
        let pair = &props[p];
        if pair.0 == key_x {
            match pair.1.to_int() {
                Ok(n) => {
                    x = Some(n);
                },
                Err(_) => {
                    return Err(FillersDecodeError::XNotInt);
                },
            }
        } else if pair.0 == key_y {
            match pair.1.to_int() {
                Ok(n) => {
                    y = Some(n);
                },
                Err(_) => {
                    return Err(FillersDecodeError::YNotInt);
                },
            }
        } else if pair.0 == key_w {
            match pair.1.to_uint() {
                Ok(n) => {
                    w = Some(n);
                },
                Err(_) => {
                    return Err(FillersDecodeError::WidthNotInt);
                },
            }
        } else if pair.0 == key_h {
            match pair.1.to_uint() {
                Ok(n) => {
                    h = Some(n);
                },
                Err(_) => {
                    return Err(FillersDecodeError::HeightNotInt);
                },
            }
        }
        p = p + 1;
    }
    proof {
        assert(cv.props.skip(cv.props.len() as int).len() == 0);
    }
    let x = match x {
        Some(v) => v,
        None => {
            return Err(FillersDecodeError::MissingX);
        },
    };
    let y = match y {
        Some(v) => v,
        None => {
            return Err(FillersDecodeError::MissingY);
        },
    };
    let w = match w {
        Some(v) => v,
        None => {
            return Err(FillersDecodeError::MissingWidth);
        },
    };
    let h = match h {
        Some(v) => v,
        None => {
            return Err(FillersDecodeError::MissingHeight);
        },
    };
    Ok(Filler::new(Rect::new(Point::new(x, y), Size::new(w, h))))
}

/// Pulls the fillers out of the document tree: removes the `Filler`
/// child from the unread remainder and turns each of its children into
/// a filler record, appended in source order. A tree without a `Filler`
/// child fails with `MissingFillerNode` and changes nothing.
pub fn read_fillers(map: &mut CelesteMap) -> (res: Result<(), FillersDecodeError>)
    ensures
        final(map)@.name == old(map)@.name,
        final(map)@.screens == old(map)@.screens,
        match extract_fillers(old(map)@.unread) {
            Err(e) => res == Err::<(), FillersDecodeError>(e) && (e
                == FillersDecodeError::MissingFillerNode ==> final(map)@ == old(map)@),
            Ok((fs, rest)) => res is Ok && final(map)@.fillers == old(map)@.fillers + fs
                && final(map)@.unread == rest,
        },
{
    let ghost unread0 = map@.unread;
    let ghost fillers0 = map@.fillers;
    let mut node = match map.take_unread_child("Filler") {
        Some(n) => n,
        None => {
            return Err(FillersDecodeError::MissingFillerNode);
        },
    };
    let ghost rest0 = map@.unread;
    let ghost cvs = node@.children;
    proof {
        assert(extract_fillers(unread0) == match fillers_from_children(cvs) {
            Err(e) => Err::<(Seq<FillerV>, NodeV), FillersDecodeError>(e),
            Ok(fs) => Ok((fs, rest0)),
        });
    }
    let children = node.take_children();
    let mut k: usize = 0;
    proof {
        assert(cvs.skip(0) =~= cvs);
        match fillers_from_children(cvs) {
            Err(_) => {},
            Ok(all) => {
                assert(fillers0 + all == map@.fillers + all);
            },
        }
    }
    while k < children.len()
        invariant
            0 <= k <= children@.len(),
            children@.len() == cvs.len(),
            forall|i: int| 0 <= i < cvs.len() ==> (#[trigger] children@[i])@ == cvs[i],
            map@.name == old(map)@.name,
            map@.screens == old(map)@.screens,
            map@.unread == rest0,
            extract_fillers(old(map)@.unread) == match fillers_from_children(cvs) {
                Err(e) => Err::<(Seq<FillerV>, NodeV), FillersDecodeError>(e),
                Ok(fs) => Ok((fs, rest0)),
            },
            fillers0 == old(map)@.fillers,
            match fillers_from_children(cvs.skip(k as int)) {
                Err(e) => fillers_from_children(cvs) == Err::<Seq<FillerV>, _>(e),
                Ok(rest2) => fillers_from_children(cvs) matches Ok(all) && fillers0 + all
                    == map@.fillers + rest2,
            },
        decreases children@.len() - k,
    {
        proof {
            assert(cvs.skip(k as int)[0] == cvs[k as int]);
            assert(cvs.skip(k as int).drop_first() =~= cvs.skip(k as int + 1));
        }
        let f = match filler_of_node(&children[k]) {
            Ok(f) => f,
            Err(e) => {
                proof {
                    lemma_filler_from_node_no_missing(cvs[k as int]);
                }
                return Err(e);
            },
        };
        let ghost fv = f@;
        map.push_filler(f);
        proof {
            match fillers_from_children(cvs.skip(k as int + 1)) {
                Err(_) => {},
                Ok(rest2) => {
                    assert(fillers_from_children(cvs.skip(k as int)) == Ok::<
                        _,
                        FillersDecodeError,
                    >(seq![fv] + rest2));
                    assert((map@.fillers.drop_last()) + (seq![fv] + rest2) =~= map@.fillers
                        + rest2);
                },
            }
        }
        k = k + 1;
    }
    proof {
        assert(cvs.skip(cvs.len() as int).len() == 0);
        match fillers_from_children(cvs) {
            Err(_) => {
                assert(false);
            },
            Ok(all) => {
                assert(map@.fillers + Seq::<FillerV>::empty() =~= map@.fillers);
                assert(fillers0 + all == map@.fillers);
            },
        }
    }
    Ok(())
}

} // verus!
