//! The region/fragment model and the layout protocol: nodes take a sequence
//! of candidate regions and produce fully resolved frames.
use vstd::prelude::*;

use crate::pad::{grow1, shrink1, PadNode};
use crate::size::{resolve1, Point, Size, MAX_UNITS};
use crate::sides::Sides;
use crate::{ErrorKind, TypesetError};

verus! {

/// Cap on element coordinates: translation saturates here instead of
/// overflowing, a defined fallback for degenerate geometry.
pub const MAX_COORD: i64 = 1_000_000_000_000_000;

/// Largest admitted translation offset per axis; a resolved inset of an
/// admitted frame stays far below it.
pub const MAX_OFFSET: i64 = 4_000_000_000_000;

/// Clamp an extent into the admitted range of region and frame sizes.
pub open spec fn clamp_units(v: int) -> int {
    if v < 0 {
        0
    } else if v > MAX_UNITS {
        MAX_UNITS as int
    } else {
        v
    }
}

/// Add two coordinates, saturating at the coordinate cap.
pub open spec fn cap_add(a: int, b: int) -> int {
    if a + b > MAX_COORD {
        MAX_COORD as int
    } else {
        a + b
    }
}

/// Clamp an extent into the admitted range of region and frame sizes.
pub fn clamp_extent(v: i64) -> (r: i64)
    ensures
        r == clamp_units(v as int),
{
    if v < 0 {
        0
    } else if v > MAX_UNITS {
        MAX_UNITS
    } else {
        v
    }
}

/// One candidate target size offered to a layout node, with per-axis flags
/// saying whether the produced frame must fill the target extent or may
/// shrink to its content.
#[derive(Clone, Copy, PartialEq, Eq, Structural, Debug)]
pub struct Region {
    /// The target size.
    pub size: Size,
    /// Whether the frame must fill the horizontal extent.
    pub expand_x: bool,
    /// Whether the frame must fill the vertical extent.
    pub expand_y: bool,
}

/// An ordered sequence of candidate target sizes; the first is the active
/// region and the rest are the backlog of fallback sizes. A region sequence
/// handed to a layout call must never be empty.
#[derive(Clone, Debug)]
pub struct Regions {
    /// The regions, in order of use.
    pub items: Vec<Region>,
}

impl Regions {
    /// Every region's size lies in the admitted range.
    pub open spec fn sizes_wf(self) -> bool {
        forall|i: int| 0 <= i < self.items@.len() ==> (#[trigger] self.items@[i]).size.wf()
    }

    /// A well-formed region sequence is non-empty on top of that.
    pub open spec fn wf(self) -> bool {
        self.items@.len() > 0 && self.sizes_wf()
    }

    /// Create a region sequence.
    pub fn new(items: Vec<Region>) -> (r: Regions)
        ensures
            r.items@ == items@,
    {
        Regions { items }
    }

    /// A sequence of one region, the usual starting point of a layout pass.
    pub fn one(size: Size, expand_x: bool, expand_y: bool) -> (r: Regions)
        ensures
            r.items@.len() == 1,
            r.items@[0] == (Region { size, expand_x, expand_y }),
    {
        let mut items: Vec<Region> = Vec::new();
        items.push(Region { size, expand_x, expand_y });
        Regions { items }
    }
}

/// A piece of positioned content geometry inside a frame, relative to the
/// frame's origin.
#[derive(Clone, Copy, PartialEq, Eq, Structural, Debug)]
pub struct Element {
    /// Position of the element.
    pub pos: Point,
    /// Extent of the element.
    pub size: Size,
}

/// An element's coordinates lie within the cap and its size in the admitted
/// range.
pub open spec fn elem_wf(e: Element) -> bool {
    &&& 0 <= e.pos.x <= MAX_COORD
    &&& 0 <= e.pos.y <= MAX_COORD
    &&& e.size.wf()
}

/// An element moved by an offset, each coordinate saturating at the cap.
pub open spec fn translate_elem(e: Element, offset: Point) -> Element {
    Element {
        pos: (Point {
            x: cap_add(e.pos.x as int, offset.x as int) as i64,
            y: cap_add(e.pos.y as int, offset.y as int) as i64,
        }),
        size: e.size,
    }
}

/// The mathematical content of a frame.
pub ghost struct FrameV {
    /// The frame's concrete size.
    pub size: Size,
    /// The positioned elements.
    pub elements: Seq<Element>,
}

/// A frame's size is a fully resolved absolute size in the admitted range
/// and all its elements are admitted.
pub open spec fn frame_v_wf(f: FrameV) -> bool {
    &&& f.size.wf()
    &&& forall|i: int| 0 <= i < f.elements.len() ==> elem_wf(#[trigger] f.elements[i])
}

/// A concrete, fully-resolved-size box containing positioned content.
#[derive(Clone, Debug)]
pub struct Frame {
    /// The frame's concrete size.
    pub size: Size,
    /// The positioned elements.
    pub elements: Vec<Element>,
}

impl View for Frame {
    type V = FrameV;

    open spec fn view(&self) -> FrameV {
        FrameV { size: self.size, elements: self.elements@ }
    }
}

impl Frame {
    /// All sizes and coordinates admitted.
    pub open spec fn wf(self) -> bool {
        frame_v_wf(self@)
    }

    /// A frame of the given size holding one content element of that same
    /// size at the origin.
    pub fn content_box(size: Size) -> (r: Frame)
        ensures
            r@.size == size,
            r@.elements =~= seq![
                (Element { pos: (Point { x: 0, y: 0 }), size }),
            ],
    {
        let mut elements: Vec<Element> = Vec::new();
        elements.push(Element { pos: Point { x: 0, y: 0 }, size });
        Frame { size, elements }
    }

    /// Set the frame's size, leaving its elements in place.
    pub fn set_size(&mut self, size: Size)
        ensures
            final(self).size == size,
            final(self).elements@ == old(self).elements@,
    {
        self.size = size;
    }

    /// Translate every element of the frame by an offset, saturating at the
    /// coordinate cap; the frame's own size is untouched.
    pub fn translate(&mut self, offset: Point)
        requires
            0 <= offset.x <= MAX_OFFSET,
            0 <= offset.y <= MAX_OFFSET,
            forall|i: int| 0 <= i < old(self).elements@.len() ==> elem_wf(
                #[trigger] old(self).elements@[i],
            ),
        ensures
            final(self).size == old(self).size,
            final(self).elements@ =~= old(self).elements@.map_values(
                |e: Element| translate_elem(e, offset),
            ),
    {
        let ghost before = self.elements@;
        let mut out: Vec<Element> = Vec::new();
        let mut i: usize = 0;
        while i < self.elements.len()
            invariant
                0 <= offset.x <= MAX_OFFSET,
                0 <= offset.y <= MAX_OFFSET,
                before == self.elements@,
                forall|j: int| 0 <= j < before.len() ==> elem_wf(#[trigger] before[j]),
                0 <= i <= before.len(),
                out@.len() == i,
                forall|j: int| 0 <= j < i ==> out@[j] == translate_elem(
                    #[trigger] before[j],
                    offset,
                ),
            decreases before.len() - i,
        {
            let e = self.elements[i];
            let x = if e.pos.x + offset.x > MAX_COORD {
                MAX_COORD
            } else {
                e.pos.x + offset.x
            };
            let y = if e.pos.y + offset.y > MAX_COORD {
                MAX_COORD
            } else {
                e.pos.y + offset.y
            };
            out.push(Element { pos: Point { x, y }, size: e.size });
            i = i + 1;
        }
        self.elements = out;
    }
}

/// The ordered output of one layout call: one frame per region actually
/// used.
#[derive(Clone, Debug)]
pub struct Fragment {
    /// The produced frames, in region order.
    pub frames: Vec<Frame>,
}

impl View for Fragment {
    type V = Seq<FrameV>;

    open spec fn view(&self) -> Seq<FrameV> {
        self.frames@.map_values(|f: Frame| f@)
    }
}

/// The style context threaded through a layout pass, read-only and scoped
/// to the subtree it is handed to.
#[derive(Clone, Copy, PartialEq, Eq, Structural, Debug)]
pub struct LayoutStyle {
    /// The base page style.
    pub page: PageStyle,
}

/// The page dimensions and margins a layout pass starts from.
#[derive(Clone, Copy, PartialEq, Eq, Structural, Debug)]
pub struct PageStyle {
    /// The page dimensions.
    pub size: Size,
    /// The page margins.
    pub margins: Sides,
}

/// A document construct that can be laid out.
#[derive(Debug)]
pub enum Content {
    /// A leaf box of fixed content size.
    Boxed(BoxNode),
    /// Content padded at the sides.
    Pad(Box<PadNode>),
}

/// A leaf node that lays out to its configured size, or to the region's
/// extent where the region demands expansion.
#[derive(Clone, Copy, PartialEq, Eq, Structural, Debug)]
pub struct BoxNode {
    /// The configured content size.
    pub size: Size,
}

/// Nesting depth of a content tree, the measure of the layout recursion.
pub open spec fn content_height(c: Content) -> nat
    decreases c,
{
    match c {
        Content::Boxed(_) => 0,
        Content::Pad(p) => 1 + content_height(p.body),
    }
}

/// Every node's configuration lies in the admitted ranges.
pub open spec fn content_wf(c: Content) -> bool
    decreases c,
{
    match c {
        Content::Boxed(b) => b.size.wf(),
        Content::Pad(p) => p.padding.wf() && content_wf(p.body),
    }
}

/// Whether a content tree's configuration lies in the admitted ranges; the
/// executable twin of [`content_wf`], for callers outside the proof.
pub fn check_content_wf(c: &Content) -> (r: bool)
    ensures
        r == content_wf(*c),
    decreases content_height(*c),
{
    match c {
        Content::Boxed(b) => 0 <= b.size.x && b.size.x <= MAX_UNITS && 0 <= b.size.y && b.size.y
            <= MAX_UNITS,
        Content::Pad(p) => p.padding.check_wf() && check_content_wf(&p.body),
    }
}

/// The frame a box leaf produces for a region.
pub open spec fn spec_box_frame(b: BoxNode, reg: Region) -> FrameV {
    let w = if reg.expand_x {
        reg.size.x
    } else {
        b.size.x
    };
    let h = if reg.expand_y {
        reg.size.y
    } else {
        b.size.y
    };
    FrameV {
        size: (Size { x: w, y: h }),
        elements: seq![
            (Element { pos: (Point { x: 0, y: 0 }), size: (Size { x: w, y: h }) }),
        ],
    }
}

/// The region a padding node derives for its child: the padding's axis
/// totals, resolved against the region's own size, are taken out, and the
/// result is clamped into the admitted range.
pub open spec fn spec_shrunk_region(reg: Region, p: Sides) -> Region {
    Region {
        size: (Size {
            x: clamp_units(shrink1(reg.size.x as int, p.hrel(), p.habs())) as i64,
            y: clamp_units(shrink1(reg.size.y as int, p.vrel(), p.vabs())) as i64,
        }),
        expand_x: reg.expand_x,
        expand_y: reg.expand_y,
    }
}

/// What padding makes of one child frame: the grown size (clamped into the
/// admitted range) becomes the frame's size, and the padding resolved
/// against that grown size moves every element inward by the left and top
/// insets.
pub open spec fn spec_pad_frame(f: FrameV, p: Sides) -> FrameV {
    let wx = clamp_units(grow1(f.size.x as int, p.hrel(), p.habs()));
    let wy = clamp_units(grow1(f.size.y as int, p.vrel(), p.vabs()));
    let left = resolve1(p.left.rel as int, p.left.abs as int, wx);
    let top = resolve1(p.top.rel as int, p.top.abs as int, wy);
    FrameV {
        size: (Size { x: wx as i64, y: wy as i64 }),
        elements: f.elements.map_values(
            |e: Element| translate_elem(e, Point { x: left as i64, y: top as i64 }),
        ),
    }
}

/// The frames a content tree produces for a region sequence.
pub open spec fn spec_layout(c: Content, regs: Seq<Region>) -> Seq<FrameV>
    decreases content_height(c), 1nat,
{
    match c {
        Content::Boxed(b) => seq![spec_box_frame(b, regs[0])],
        Content::Pad(p) => spec_pad_layout(*p, regs),
    }
}

/// The frames a padding node produces: its child is laid out into the
/// shrunk regions and every resulting frame is grown and shifted.
pub open spec fn spec_pad_layout(p: PadNode, regs: Seq<Region>) -> Seq<FrameV>
    decreases content_height(p.body), 2nat,
{
    spec_layout(p.body, regs.map_values(|reg: Region| spec_shrunk_region(reg, p.padding)))
        .map_values(|f: FrameV| spec_pad_frame(f, p.padding))
}

/// Lay out a content tree into a region sequence. An empty region sequence
/// is an invariant violation and is rejected; otherwise the produced frames
/// are exactly the model's, at least one, every size fully resolved and
/// admitted.
pub fn layout_content(content: &Content, style: &LayoutStyle, regions: &Regions) -> (r: Result<
    Fragment,
    TypesetError,
>)
    requires
        content_wf(*content),
        regions.sizes_wf(),
    ensures
        match r {
            Ok(f) => {
                &&& regions.items@.len() > 0
                &&& f@ == spec_layout(*content, regions.items@)
                &&& f@.len() > 0
                &&& forall|i: int| 0 <= i < f@.len() ==> frame_v_wf(#[trigger] f@[i])
            },
            Err(e) => regions.items@.len() == 0 && e.kind == ErrorKind::EmptyRegions,
        },
    decreases content_height(*content), 1nat,
{
    match content {
        Content::Boxed(b) => b.layout(style, regions),
        Content::Pad(p) => p.layout(style, regions),
    }
}

impl BoxNode {
    /// Lay the box out: one frame for the active region, of the region's
    /// extent where the region expands and of the configured content size
    /// where it does not, holding one content element at the origin.
    pub fn layout(&self, style: &LayoutStyle, regions: &Regions) -> (r: Result<
        Fragment,
        TypesetError,
    >)
        requires
            self.size.wf(),
            regions.sizes_wf(),
        ensures
            match r {
                Ok(f) => {
                    &&& regions.items@.len() > 0
                    &&& f@ == spec_layout(Content::Boxed(*self), regions.items@)
                    &&& f@.len() > 0
                    &&& forall|i: int| 0 <= i < f@.len() ==> frame_v_wf(#[trigger] f@[i])
                },
                Err(e) => regions.items@.len() == 0 && e.kind == ErrorKind::EmptyRegions,
            },
    {
        if regions.items.len() == 0 {
            return Err(
                TypesetError::with_kind(
                    ErrorKind::EmptyRegions,
                    "layout invariant violated: empty region sequence".to_string(),
                    None,
                ),
            );
        }
        let reg = regions.items[0];
        let w = if reg.expand_x {
            reg.size.x
        } else {
            self.size.x
        };
        let h = if reg.expand_y {
            reg.size.y
        } else {
            self.size.y
        };
        let frame = Frame::content_box(Size { x: w, y: h });
        let mut frames: Vec<Frame> = Vec::new();
        frames.push(frame);
        let f = Fragment { frames };
        proof {
            assert(f@ =~= seq![spec_box_frame(*self, regions.items@[0])]);
            assert(f@ == spec_layout(Content::Boxed(*self), regions.items@));
        }
        Ok(f)
    }
}

} // verus!
