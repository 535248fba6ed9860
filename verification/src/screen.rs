//! Screen records: named rectangular regions extracted from the
//! `levels` child of the decoded tree, one record per `level` child,
//! each keeping its unconsumed remainder.

use crate::geom::{IntRect, Point, Rect, Size};
use crate::map::CelesteMap;
use crate::node::{find_child, props_view, Node, NodeV};
use crate::value::{value_to_int, value_to_text, value_to_uint, Value, ValueV};
use vstd::prelude::*;

verus! {

/// A screen: a name, a rectangle, and the unread remainder of the node
/// it came from.
#[derive(Debug)]
pub struct Screen {
    name: String,
    rect: IntRect,
    unread: Node,
}

/// The mathematical form of a screen.
pub struct ScreenV {
    pub name: Seq<char>,
    pub x: i32,
    pub y: i32,
    pub w: u32,
    pub h: u32,
    pub unread: NodeV,
}

impl View for Screen {
    type V = ScreenV;

    closed spec fn view(&self) -> ScreenV {
        ScreenV {
            name: self.name@,
            x: self.rect.spec_position().spec_x(),
            y: self.rect.spec_position().spec_y(),
            w: self.rect.spec_size().spec_width(),
            h: self.rect.spec_size().spec_height(),
            unread: self.unread@,
        }
    }
}

impl Screen {
    /// A screen with an empty `level` remainder.
    pub fn new(name: String, rect: IntRect) -> (r: Self)
        ensures
            r@.name == name@,
            r@.x == rect.spec_position().spec_x(),
            r@.y == rect.spec_position().spec_y(),
            r@.w == rect.spec_size().spec_width(),
            r@.h == rect.spec_size().spec_height(),
            r@.unread.name == "level"@,
            r@.unread.props.len() == 0,
            r@.unread.children.len() == 0,
    {
        Screen { name, rect, unread: Node::new("level".to_owned()) }
    }

    /// The screen's name.
    pub fn name(&self) -> (r: &str)
        ensures
            r@ == self@.name,
    {
        self.name.as_str()
    }

    /// The rectangle this screen covers.
    pub fn shape(&self) -> (r: IntRect)
        ensures
            r.spec_position().spec_x() == self@.x,
            r.spec_position().spec_y() == self@.y,
            r.spec_size().spec_width() == self@.w,
            r.spec_size().spec_height() == self@.h,
    {
        self.rect
    }

    /// The unconsumed remainder of the node this screen came from.
    pub fn unread(&self) -> (r: &Node)
        ensures
            r@ == self@.unread,
    {
        &self.unread
    }
}

/// Failure of screen extraction, naming the missing or ill-typed field.
#[derive(Debug, Clone, Copy, PartialEq, Eq)]
pub enum ScreensDecodeError {
    MissingLevelsNode,
    MissingName,
    NameNotString,
    MissingX,
    XNotInt,
    MissingY,
    YNotInt,
    MissingWidth,
    WidthNotInt,
    MissingHeight,
    HeightNotInt,
}

/// Walks the properties in order: a recognized key stores the result of
/// converting its value (the last occurrence winning, errors kept until
/// the end of the walk) and is consumed; every other property is kept.
pub open spec fn screen_scan(
    props: Seq<(Seq<char>, ValueV)>,
    kept: Seq<(Seq<char>, ValueV)>,
    name: Option<Result<Seq<char>, ScreensDecodeError>>,
    x: Option<Result<i32, ScreensDecodeError>>,
    y: Option<Result<i32, ScreensDecodeError>>,
    w: Option<Result<u32, ScreensDecodeError>>,
    h: Option<Result<u32, ScreensDecodeError>>,
) -> (
    Seq<(Seq<char>, ValueV)>,
    Option<Result<Seq<char>, ScreensDecodeError>>,
    Option<Result<i32, ScreensDecodeError>>,
    Option<Result<i32, ScreensDecodeError>>,
    Option<Result<u32, ScreensDecodeError>>,
    Option<Result<u32, ScreensDecodeError>>,
)
    decreases props.len(),
{
    if props.len() == 0 {
        (kept, name, x, y, w, h)
    } else {
        let key = props[0].0;
        let v = props[0].1;
        let rest = props.drop_first();
        if key == "name"@ {
            let conv = match value_to_text(v) {
                Some(s) => Ok(s),
                None => Err(ScreensDecodeError::NameNotString),
            };
            screen_scan(rest, kept, Some(conv), x, y, w, h)
        } else if key == "x"@ {
            let conv = match value_to_int(v) {
                Some(n) => Ok(n),
                None => Err(ScreensDecodeError::XNotInt),
            };
            screen_scan(rest, kept, name, Some(conv), y, w, h)
        } else if key == "y"@ {
            let conv = match value_to_int(v) {
                Some(n) => Ok(n),
                None => Err(ScreensDecodeError::YNotInt),
            };
            screen_scan(rest, kept, name, x, Some(conv), w, h)
        } else if key == "width"@ {
            let conv = match value_to_uint(v) {
                Some(n) => Ok(n),
                None => Err(ScreensDecodeError::WidthNotInt),
            };
            screen_scan(rest, kept, name, x, y, Some(conv), h)
        } else if key == "height"@ {
            let conv = match value_to_uint(v) {
                Some(n) => Ok(n),
                None => Err(ScreensDecodeError::HeightNotInt),
            };
            screen_scan(rest, kept, name, x, y, w, Some(conv))
        } else {
            screen_scan(rest, kept.push(props[0]), name, x, y, w, h)
        }
    }
}

/// Whether a stored conversion result avoids the document-level
/// missing-node error.
pub open spec fn acc_no_missing<T>(o: Option<Result<T, ScreensDecodeError>>) -> bool {
    match o {
        Some(Err(e)) => e != ScreensDecodeError::MissingLevelsNode,
        _ => true,
    }
}

/// A property walk never stores the document-level missing-node error.
proof fn lemma_screen_scan_no_missing(
    props: Seq<(Seq<char>, ValueV)>,
    kept: Seq<(Seq<char>, ValueV)>,
    name: Option<Result<Seq<char>, ScreensDecodeError>>,
    x: Option<Result<i32, ScreensDecodeError>>,
    y: Option<Result<i32, ScreensDecodeError>>,
    w: Option<Result<u32, ScreensDecodeError>>,
    h: Option<Result<u32, ScreensDecodeError>>,
)
    requires
        acc_no_missing(name),
        acc_no_missing(x),
        acc_no_missing(y),
        acc_no_missing(w),
        acc_no_missing(h),
    ensures
        ({
            let (kept2, name2, x2, y2, w2, h2) = screen_scan(props, kept, name, x, y, w, h);
            acc_no_missing(name2) && acc_no_missing(x2) && acc_no_missing(y2) && acc_no_missing(
                w2,
            ) && acc_no_missing(h2)
        }),
    decreases props.len(),
{
    if props.len() > 0 {
        let key = props[0].0;
        let v = props[0].1;
        let rest = props.drop_first();
        if key == "name"@ {
            let conv = match value_to_text(v) {
                Some(s) => Ok(s),
                None => Err(ScreensDecodeError::NameNotString),
            };
            lemma_screen_scan_no_missing(rest, kept, Some(conv), x, y, w, h);
        } else if key == "x"@ {
            let conv = match value_to_int(v) {
                Some(n) => Ok(n),
                None => Err(ScreensDecodeError::XNotInt),
            };
            lemma_screen_scan_no_missing(rest, kept, name, Some(conv), y, w, h);
        } else if key == "y"@ {
            let conv = match value_to_int(v) {
                Some(n) => Ok(n),
                None => Err(ScreensDecodeError::YNotInt),
            };
            lemma_screen_scan_no_missing(rest, kept, name, x, Some(conv), w, h);
        } else if key == "width"@ {
            let conv = match value_to_uint(v) {
                Some(n) => Ok(n),
                None => Err(ScreensDecodeError::WidthNotInt),
            };
            lemma_screen_scan_no_missing(rest, kept, name, x, y, Some(conv), h);
        } else if key == "height"@ {
            let conv = match value_to_uint(v) {
                Some(n) => Ok(n),
                None => Err(ScreensDecodeError::HeightNotInt),
            };
            lemma_screen_scan_no_missing(rest, kept, name, x, y, w, Some(conv));
        } else {
            lemma_screen_scan_no_missing(rest, kept.push(props[0]), name, x, y, w, h);
        }
    }
}

/// One node's screen never fails with the document-level missing-node
/// error.
pub proof fn lemma_screen_from_node_no_missing(n: NodeV)
    ensures
        screen_from_node(n) != Err::<ScreenV, _>(ScreensDecodeError::MissingLevelsNode),
{
    lemma_screen_scan_no_missing(n.props, Seq::empty(), None, None, None, None, None);
}

/// The screen one node yields: the five named fields, each required,
/// checked in a fixed order, with the kept properties and all children
/// forming the screen's unread remainder.
pub open spec fn screen_from_node(n: NodeV) -> Result<ScreenV, ScreensDecodeError> {
    let (kept, name, x, y, w, h) = screen_scan(n.props, Seq::empty(), None, None, None, None, None);
    match name {
        None => Err(ScreensDecodeError::MissingName),
        Some(Err(e)) => Err(e),
        Some(Ok(nm)) => match x {
            None => Err(ScreensDecodeError::MissingX),
            Some(Err(e)) => Err(e),
            Some(Ok(x)) => match y {
                None => Err(ScreensDecodeError::MissingY),
                Some(Err(e)) => Err(e),
                Some(Ok(y)) => match w {
                    None => Err(ScreensDecodeError::MissingWidth),
                    Some(Err(e)) => Err(e),
                    Some(Ok(w)) => match h {
                        None => Err(ScreensDecodeError::MissingHeight),
                        Some(Err(e)) => Err(e),
                        Some(Ok(h)) => Ok(
                            ScreenV {
                                name: nm,
                                x,
                                y,
                                w,
                                h,
                                unread: NodeV { name: n.name, props: kept, children: n.children },
                            },
                        ),
                    },
                },
            },
        },
    }
}

/// The screens a child list yields, in order; the first failing child
/// aborts the extraction.
pub open spec fn screens_from_children(children: Seq<NodeV>) -> Result<
    Seq<ScreenV>,
    ScreensDecodeError,
>
    decreases children.len(),
{
    if children.len() == 0 {
        Ok(Seq::empty())
    } else {
        match screen_from_node(children[0]) {
            Err(e) => Err(e),
            Ok(s) => match screens_from_children(children.drop_first()) {
                Err(e) => Err(e),
                Ok(rest) => Ok(seq![s] + rest),
            },
        }
    }
}

/// What screen extraction does to a tree: the first `levels` child is
/// removed (the remaining children keep their order) and each of its
/// children becomes one screen; a tree without a `levels` child fails
/// with `MissingLevelsNode`.
pub open spec fn extract_screens(root: NodeV) -> Result<(Seq<ScreenV>, NodeV), ScreensDecodeError> {
    match find_child(root.children, "levels"@) {
        None => Err(ScreensDecodeError::MissingLevelsNode),
        Some(i) => {
            let node = root.children[i];
            let rest = NodeV {
                name: root.name,
                props: root.props,
                children: root.children.remove(i),
            };
            match screens_from_children(node.children) {
                Err(e) => Err(e),
                Ok(ss) => Ok((ss, rest)),
            }
        },
    }
}

/// Extracts one screen from one child node, consuming it. The child's
/// name is not checked; recognized properties are converted (the last
/// occurrence of each winning) and consumed, the rest stay on the
/// child, which becomes the screen's unread remainder.
fn screen_of_node(child: Node) -> (res: Result<Screen, ScreensDecodeError>)
    ensures
        match screen_from_node(child@) {
            Ok(sv) => res matches Ok(s) && s@ == sv,
            Err(e) => res == Err::<Screen, _>(e),
        },
{
    let ghost cv = child@;
    let mut child = child;
    let mut props = child.take_properties();
    let key_name: String = "name".to_owned();
    let key_x: String = "x".to_owned();
    let key_y: String = "y".to_owned();
    let key_w: String = "width".to_owned();
    let key_h: String = "height".to_owned();
    let mut name: Option<Result<String, ScreensDecodeError>> = None;
    let mut x: Option<Result<i32, ScreensDecodeError>> = None;
    let mut y: Option<Result<i32, ScreensDecodeError>> = None;
    let mut w: Option<Result<u32, ScreensDecodeError>> = None;
    let mut h: Option<Result<u32, ScreensDecodeError>> = None;
    proof {
        assert(props_view(props@) =~= cv.props);
        assert(child@.props =~= Seq::<(Seq<char>, ValueV)>::empty());
    }
    while props.len() > 0
        invariant
            key_name@ == "name"@,
            key_x@ == "x"@,
            key_y@ == "y"@,
            key_w@ == "width"@,
            key_h@ == "height"@,
            child@.name == cv.name,
            child@.children == cv.children,
            screen_scan(cv.props, Seq::empty(), None, None, None, None, None) == screen_scan(
                props_view(props@),
                child@.props,
                name_acc_view(name),
                x,
                y,
                w,
                h,
            ),
        decreases props@.len(),
    {
        let ghost pvs = props_view(props@);
        let pair = props.remove(0);
        proof {
            assert(props_view(props@) =~= pvs.drop_first());
            assert(pvs[0] == (pair.0@, pair.1@));
        }
        if pair.0 == key_name {
            match pair.1.to_text() {
                Ok(s) => {
                    name = Some(Ok(s));
                },
                Err(_) => {
                    name = Some(Err(ScreensDecodeError::NameNotString));
                },
            }
        } else if pair.0 == key_x {
            match pair.1.to_int() {
                Ok(n) => {
                    x = Some(Ok(n));
                },
                Err(_) => {
                    x = Some(Err(ScreensDecodeError::XNotInt));
                },
            }
        } else if pair.0 == key_y {
            match pair.1.to_int() {
                Ok(n) => {
                    y = Some(Ok(n));
                },
                Err(_) => {
                    y = Some(Err(ScreensDecodeError::YNotInt));
                },
            }
        } else if pair.0 == key_w {
            match pair.1.to_uint() {
                Ok(n) => {
                    w = Some(Ok(n));
                },
                Err(_) => {
                    w = Some(Err(ScreensDecodeError::WidthNotInt));
                },
            }
        } else if pair.0 == key_h {
            match pair.1.to_uint() {
                Ok(n) => {
                    h = Some(Ok(n));
                },
                Err(_) => {
                    h = Some(Err(ScreensDecodeError::HeightNotInt));
                },
            }
        } else {
            child.push_property(pair.0, pair.1);
        }
    }
    proof {
        assert(props_view(props@).len() == 0);
    }
    let nm = match name {
        None => {
            return Err(ScreensDecodeError::MissingName);
        },
        Some(Err(e)) => {
            return Err(e);
        },
        Some(Ok(s)) => s,
    };
    let x = match x {
        None => {
            return Err(ScreensDecodeError::MissingX);
        },
        Some(Err(e)) => {
            return Err(e);
        },
        Some(Ok(v)) => v,
    };
    let y = match y {
        None => {
            return Err(ScreensDecodeError::MissingY);
        },
        Some(Err(e)) => {
            return Err(e);
        },
        Some(Ok(v)) => v,
    };
    let w = match w {
        None => {
            return Err(ScreensDecodeError::MissingWidth);
        },
        Some(Err(e)) => {
            return Err(e);
        },
        Some(Ok(v)) => v,
    };
    let h = match h {
        None => {
            return Err(ScreensDecodeError::MissingHeight);
        },
        Some(Err(e)) => {
            return Err(e);
        },
        Some(Ok(v)) => v,
    };
    Ok(Screen { name: nm, rect: Rect::new(Point::new(x, y), Size::new(w, h)), unread: child })
}

/// The mathematical form of a stored conversion result for the name.
pub open spec fn name_acc_view(o: Option<Result<String, ScreensDecodeError>>) -> Option<
    Result<Seq<char>, ScreensDecodeError>,
> {
    match o {
        None => None,
        Some(Ok(s)) => Some(Ok(s@)),
        Some(Err(e)) => Some(Err(e)),
    }
}

/// Pulls the screens out of the document tree: removes the `levels`
/// child from the unread remainder and turns each of its children into
/// a screen record, appended in source order. A tree without a `levels`
/// child fails with `MissingLevelsNode` and changes nothing.
pub fn decode_screens(map: &mut CelesteMap) -> (res: Result<(), ScreensDecodeError>)
    ensures
        final(map)@.name == old(map)@.name,
        final(map)@.fillers == old(map)@.fillers,
        match extract_screens(old(map)@.unread) {
            Err(e) => res == Err::<(), ScreensDecodeError>(e) && (e
                == ScreensDecodeError::MissingLevelsNode ==> final(map)@ == old(map)@),
            Ok((ss, rest)) => res is Ok && final(map)@.screens == old(map)@.screens + ss
                && final(map)@.unread == rest,
        },
{
    let ghost unread0 = map@.unread;
    let ghost screens0 = map@.screens;
    let mut node = match map.take_unread_child("levels") {
        Some(n) => n,
        None => {
            return Err(ScreensDecodeError::MissingLevelsNode);
        },
    };
    let ghost rest0 = map@.unread;
    let ghost cvs = node@.children;
    proof {
        assert(extract_screens(unread0) == match screens_from_children(cvs) {
            Err(e) => Err::<(Seq<ScreenV>, NodeV), ScreensDecodeError>(e),
            Ok(ss) => Ok((ss, rest0)),
        });
    }
    let mut children = node.take_children();
    let ghost n_children = children@.len();
    let mut k: usize = 0;
    proof {
        vstd::std_specs::vec::axiom_spec_len(&children);
        assert(cvs.skip(0) =~= cvs);
        match screens_from_children(cvs) {
            Err(_) => {},
            Ok(all) => {
                assert(screens0 + all == map@.screens + all);
            },
        }
    }
    while children.len() > 0
        invariant
            k == n_children - children@.len(),
            0 <= k <= n_children,
            n_children <= usize::MAX,
            n_children == cvs.len(),
            forall|i: int|
                0 <= i < children@.len() ==> (#[trigger] children@[i])@ == cvs[k + i],
            map@.name == old(map)@.name,
            map@.fillers == old(map)@.fillers,
            map@.unread == rest0,
            extract_screens(old(map)@.unread) == match screens_from_children(cvs) {
                Err(e) => Err::<(Seq<ScreenV>, NodeV), ScreensDecodeError>(e),
                Ok(ss) => Ok((ss, rest0)),
            },
            screens0 == old(map)@.screens,
            match screens_from_children(cvs.skip(k as int)) {
                Err(e) => screens_from_children(cvs) == Err::<Seq<ScreenV>, _>(e),
                Ok(rest2) => screens_from_children(cvs) matches Ok(all) && screens0 + all
                    == map@.screens + rest2,
            },
        decreases children@.len(),
    {
        proof {
            assert(cvs.skip(k as int)[0] == cvs[k as int]);
            assert(cvs.skip(k as int).drop_first() =~= cvs.skip(k as int + 1));
        }
        let child = children.remove(0);
        let s = match screen_of_node(child) {
            Ok(s) => s,
            Err(e) => {
                proof {
                    lemma_screen_from_node_no_missing(cvs[k as int]);
                }
                return Err(e);
            },
        };
        let ghost sv = s@;
        map.push_screen(s);
        proof {
            match screens_from_children(cvs.skip(k as int + 1)) {
                Err(_) => {},
                Ok(rest2) => {
                    assert(screens_from_children(cvs.skip(k as int)) == Ok::<
                        _,
                        ScreensDecodeError,
                    >(seq![sv] + rest2));
                    assert((map@.screens.drop_last()) + (seq![sv] + rest2) =~= map@.screens
                        + rest2);
                },
            }
        }
        k = k + 1;
    }
    proof {
        assert(cvs.skip(cvs.len() as int).len() == 0);
        match screens_from_children(cvs) {
            Err(_) => {
                assert(false);
            },
            Ok(all) => {
                assert(map@.screens + Seq::<ScreenV>::empty() =~= map@.screens);
                assert(screens0 + all == map@.screens);
            },
        }
    }
    Ok(())
}

} // verus!
