//! Padding: the exact shrink/grow arithmetic reconciling relative insets
//! with the two-pass layout of space-consuming nodes.
use vstd::prelude::*;

use vstd::arithmetic::div_mod::{
    lemma_fundamental_div_mod, lemma_fundamental_div_mod_converse_div, lemma_mod_bound,
};

use crate::layout::{
    clamp_extent, clamp_units, content_height, content_wf, frame_v_wf, layout_content,
    spec_pad_frame, spec_pad_layout, spec_shrunk_region, Content, Fragment, Frame, LayoutStyle,
    Region, Regions,
};
use crate::args::{find_idx, scale_size_of, ArgKey, Args, TargetKind, Value};
use crate::scope::Vm;
use crate::size::{sdiv, Length, Point, Size, MAX_UNITS, SCALE};
use crate::sides::Sides;
use crate::syntax::Spanned;
use crate::{ErrorKind, TypesetError};

verus! {

/// Largest magnitude a grown extent can take before clamping: growing an
/// extent of at most `MAX_UNITS` with admitted padding stays within it.
pub const MAX_GROWN: i64 = 3_000_000_000_000_000;

/// One axis of the shrink pass: the content extent left of `r` once the
/// padding of that axis (fraction `rel` of `r`, plus `abs`) is taken out.
pub open spec fn shrink1(r: int, rel: int, abs: int) -> int {
    r - (rel * r / (SCALE as int) + abs)
}

/// One axis of the grow pass: the outer extent `w` whose padding, taken
/// relative to `w` itself, leaves exactly the content extent `s`; in closed
/// form `w == (s + abs) * SCALE / (SCALE - rel)`, with a zero fallback where
/// a full relative fraction makes the divisor zero.
pub open spec fn grow1(s: int, rel: int, abs: int) -> int {
    sdiv((s + abs) * (SCALE as int), (SCALE as int) - rel)
}

/// Shrink a size by padding relative to the size itself: per axis, the axis
/// total of the padding is resolved against the given size and taken out.
pub fn shrink(size: Size, padding: Sides) -> (r: Size)
    requires
        padding.wf(),
        size.wf(),
    ensures
        r.x == shrink1(size.x as int, padding.hrel(), padding.habs()),
        r.y == shrink1(size.y as int, padding.vrel(), padding.vabs()),
{
    let sums = padding.sum_by_axis();
    let hx = sums.horizontal.resolve(size.x);
    let vy = sums.vertical.resolve(size.y);
    Size { x: size.x - hx, y: size.y - vy }
}

/// Grow a size by padding relative to the grown size; this is the inverse
/// operation to [`shrink`]. Per axis, with `p` the axis total of the padding,
/// the grown extent `w` must satisfy `w - p.resolve(w) == s`, which solves to
/// `w == (s + p.abs) * SCALE / (SCALE - p.rel)`; safe division makes the
/// degenerate full relative fraction yield zero instead of failing.
pub fn grow(size: Size, padding: Sides) -> (r: Size)
    requires
        padding.wf(),
        size.wf(),
    ensures
        r.x == grow1(size.x as int, padding.hrel(), padding.habs()),
        r.y == grow1(size.y as int, padding.vrel(), padding.vabs()),
        -MAX_GROWN <= r.x <= MAX_GROWN,
        -MAX_GROWN <= r.y <= MAX_GROWN,
{
    let sums = padding.sum_by_axis();
    let nx = (size.x + sums.horizontal.abs) * SCALE;
    let ny = (size.y + sums.vertical.abs) * SCALE;
    let rx = crate::size::safe_div(nx, SCALE - sums.horizontal.rel);
    let ry = crate::size::safe_div(ny, SCALE - sums.vertical.rel);
    proof {
        lemma_sdiv_bound(nx as int, SCALE - sums.horizontal.rel);
        lemma_sdiv_bound(ny as int, SCALE - sums.vertical.rel);
    }
    Size { x: rx, y: ry }
}

/// Safe division never exceeds the numerator's magnitude.
proof fn lemma_sdiv_bound(n: int, d: int)
    requires
        0 <= n,
    ensures
        -n <= sdiv(n, d) <= n,
{
    if d > 0 {
        assert(0 <= n / d <= n) by (nonlinear_arith)
            requires
                0 <= n,
                0 < d,
        ;
    } else if d < 0 {
        assert(0 <= n / -d <= n) by (nonlinear_arith)
            requires
                0 <= n,
                0 < -d,
        ;
    }
}

/// Shrink/grow inverse law, one axis: for a non-degenerate axis padding
/// (relative fraction below one) and any content extent, growing and then
/// shrinking gives the content extent back exactly.
pub proof fn lemma_shrink_grow_inverse_axis(s: int, rel: int, abs: int)
    requires
        0 <= s,
        0 <= abs,
        0 <= rel < SCALE,
    ensures
        grow1(s, rel, abs) >= 0,
        shrink1(grow1(s, rel, abs), rel, abs) == s,
{
    let sc = SCALE as int;
    let d = sc - rel;
    let n = (s + abs) * sc;
    let w = n / d;
    assert(n >= 0) by (nonlinear_arith)
        requires
            0 <= s + abs,
            sc == 1000,
            n == (s + abs) * sc,
    ;
    assert(grow1(s, rel, abs) == w);
    lemma_fundamental_div_mod(n, d);
    lemma_mod_bound(n, d);
    let m = n % d;
    assert(w >= 0) by (nonlinear_arith)
        requires
            n >= 0,
            d > 0,
            n == d * w + m,
            0 <= m < d,
    ;
    // Ring identity: rel * w == sc * (w - s - abs) + m.
    assert(rel * w == sc * (w - s - abs) + m) by (nonlinear_arith)
        requires
            n == d * w + m,
            d == sc - rel,
            n == (s + abs) * sc,
    ;
    lemma_fundamental_div_mod_converse_div(rel * w, sc, w - s - abs, m);
    assert(rel * w / sc == w - s - abs);
    assert(shrink1(w, rel, abs) == s);
}

/// Pad content at the sides.
#[derive(Debug)]
pub struct PadNode {
    /// The amount of padding.
    pub padding: Sides,
    /// The content whose sides to pad.
    pub body: Content,
}

impl PadNode {
    /// The padding and the whole body configuration lie in the admitted
    /// ranges.
    pub open spec fn wf(self) -> bool {
        &&& self.padding.wf()
        &&& content_wf(self.body)
    }

    /// Lay the padded content out: the child is laid out into regions shrunk
    /// by the padding, and each resulting frame is grown back so that the
    /// padding, taken relative to the grown size, leaves exactly the child's
    /// size; the child's elements are then shifted inward by the resolved
    /// left and top insets.
    pub fn layout(&self, style: &LayoutStyle, regions: &Regions) -> (r: Result<
        Fragment,
        TypesetError,
    >)
        requires
            self.wf(),
            regions.sizes_wf(),
        ensures
            match r {
                Ok(f) => {
                    &&& regions.items@.len() > 0
                    &&& f@ == spec_pad_layout(*self, regions.items@)
                    &&& f@.len() > 0
                    &&& forall|i: int| 0 <= i < f@.len() ==> frame_v_wf(#[trigger] f@[i])
                },
                Err(e) => regions.items@.len() == 0 && e.kind == ErrorKind::EmptyRegions,
            },
        decreases content_height(self.body), 2nat,
    {
        if regions.items.len() == 0 {
            return Err(
                TypesetError::with_kind(
                    ErrorKind::EmptyRegions,
                    "layout invariant violated: empty region sequence".to_string(),
                    None,
                ),
            );
        }
        // Derive the child's regions: available space shrinks by the padding
        // resolved against each region's own size, floored at zero.
        let mut pod_items: Vec<Region> = Vec::new();
        let mut i: usize = 0;
        while i < regions.items.len()
            invariant
                self.wf(),
                regions.sizes_wf(),
                0 <= i <= regions.items@.len(),
                pod_items@.len() == i,
                forall|j: int| 0 <= j < i ==> pod_items@[j] == spec_shrunk_region(
                    #[trigger] regions.items@[j],
                    self.padding,
                ),
            decreases regions.items@.len() - i,
        {
            let reg = regions.items[i];
            let shr = shrink(reg.size, self.padding);
            let cl = Size { x: clamp_extent(shr.x), y: clamp_extent(shr.y) };
            pod_items.push(Region { size: cl, expand_x: reg.expand_x, expand_y: reg.expand_y });
            i = i + 1;
        }
        let pod = Regions { items: pod_items };
        proof {
            assert(pod.items@ =~= regions.items@.map_values(
                |reg: Region| spec_shrunk_region(reg, self.padding),
            ));
        }
        let frag = match layout_content(&self.body, style, &pod) {
            Ok(f) => f,
            Err(e) => {
                proof {
                    assert(false);
                }
                return Err(e);
            },
        };
        let ghost childv = frag@;
        // Apply the padding inversely such that the grown size, padded,
        // yields each child frame's size, and translate the content inward.
        let mut rest = frag.frames;
        let mut out: Vec<Frame> = Vec::new();
        while rest.len() > 0
            invariant
                self.wf(),
                out@.len() + rest@.len() == childv.len(),
                forall|j: int| 0 <= j < childv.len() ==> frame_v_wf(#[trigger] childv[j]),
                forall|j: int| 0 <= j < rest@.len() ==> (#[trigger] rest@[j])@ == childv[
                    out@.len() + j
                ],
                forall|j: int| 0 <= j < out@.len() ==> (#[trigger] out@[j])@ == spec_pad_frame(
                    childv[j],
                    self.padding,
                ) && frame_v_wf(out@[j]@),
            decreases rest@.len(),
        {
            let ghost k = out@.len() as int;
            let ghost rest0 = rest@;
            let mut fr = rest.remove(0);
            proof {
                assert(fr@ == childv[k]);
                assert forall|j: int| 0 <= j < rest@.len() implies (#[trigger] rest@[j])@
                    == childv[k + 1 + j] by {
                    assert(rest@[j] == rest0[j + 1]);
                }
            }
            let padded_raw = grow(fr.size, self.padding);
            let padded = Size { x: clamp_extent(padded_raw.x), y: clamp_extent(padded_raw.y) };
            let resolved = self.padding.relative_to(padded);
            let offset = Point { x: resolved.left, y: resolved.top };
            let ghost elements0 = fr.elements@;
            fr.set_size(padded);
            proof {
                assert(fr.elements@ == childv[k].elements);
                assert forall|j: int| 0 <= j < fr.elements@.len() implies crate::layout::elem_wf(
                    #[trigger] fr.elements@[j],
                ) by {
                    assert(frame_v_wf(childv[k]));
                }
            }
            fr.translate(offset);
            proof {
                assert(fr@ == spec_pad_frame(childv[k], self.padding));
                assert forall|j: int| 0 <= j < fr@.elements.len() implies crate::layout::elem_wf(
                    fr@.elements[j],
                ) by {
                    assert(fr@.elements[j] == crate::layout::translate_elem(
                        elements0[j],
                        offset,
                    ));
                    assert(crate::layout::elem_wf(elements0[j]));
                }
                assert(frame_v_wf(fr@));
            }
            out.push(fr);
        }
        let result = Fragment { frames: out };
        proof {
            assert(result@ =~= childv.map_values(
                |f: crate::layout::FrameV| spec_pad_frame(f, self.padding),
            ));
            assert(result@ == spec_pad_layout(*self, regions.items@));
        }
        Ok(result)
    }
}

/// The length one side of a padding configuration resolves to: an explicit
/// per-side value wins over its axis-level shorthand, which wins over the
/// catch-all value, which defaults to zero.
pub open spec fn resolved_side(
    specific: Option<Length>,
    axis: Option<Length>,
    all: Option<Length>,
) -> Length {
    if specific is Some {
        specific->Some_0
    } else if axis is Some {
        axis->Some_0
    } else if all is Some {
        all->Some_0
    } else {
        Length { rel: 0, abs: 0 }
    }
}

/// The length one side of a padding configuration resolves to.
pub fn resolve_side(specific: Option<Length>, axis: Option<Length>, all: Option<Length>) -> (r:
    Length)
    ensures
        r == resolved_side(specific, axis, all),
{
    match specific {
        Some(l) => l,
        None => match axis {
            Some(l) => l,
            None => match all {
                Some(l) => l,
                None => Length { rel: 0, abs: 0 },
            },
        },
    }
}

/// Argument precedence, side by side: per resolution, `specific > axis >
/// all > default`, the default being zero.
pub proof fn lemma_argument_precedence(
    specific: Option<Length>,
    axis: Option<Length>,
    all: Option<Length>,
)
    ensures
        specific is Some ==> resolved_side(specific, axis, all) == specific->Some_0,
        specific is None && axis is Some ==> resolved_side(specific, axis, all) == axis->Some_0,
        specific is None && axis is None && all is Some ==> resolved_side(specific, axis, all)
            == all->Some_0,
        specific is None && axis is None && all is None ==> resolved_side(specific, axis, all)
            == (Length { rel: 0, abs: 0 }),
{
}

/// What a keyword lookup of a scale-size yields: `None` stands for a type
/// mismatch, `Some(None)` for an absent key.
pub open spec fn spec_named_scale(m: Map<ArgKey, Spanned<Value>>, k: ArgKey) -> Option<
    Option<Length>,
> {
    if m.contains_key(k) {
        match scale_size_of(m[k].v) {
            Some(l) => Some(Some(l)),
            None => None,
        }
    } else {
        Some(None)
    }
}

/// What constructing a padding node from an argument container yields: the
/// catch-all value is the `rest` keyword or, failing that, the first
/// positional scale-size; each side then resolves as `specific > axis >
/// all > default`, and the body is the first remaining content block.
pub open spec fn spec_pad_construct(
    pos0: Seq<Spanned<Value>>,
    named0: Map<ArgKey, Spanned<Value>>,
) -> Result<PadNode, ErrorKind> {
    let rest = spec_named_scale(named0, ArgKey::Rest);
    let found_i = find_idx(pos0, TargetKind::ScaleSize);
    let found = match found_i {
        Some(i) => scale_size_of(pos0[i].v),
        None => None,
    };
    let pos1 = match found_i {
        Some(i) => pos0.remove(i),
        None => pos0,
    };
    let x = spec_named_scale(named0, ArgKey::X);
    let y = spec_named_scale(named0, ArgKey::Y);
    let left = spec_named_scale(named0, ArgKey::Left);
    let top = spec_named_scale(named0, ArgKey::Top);
    let right = spec_named_scale(named0, ArgKey::Right);
    let bottom = spec_named_scale(named0, ArgKey::Bottom);
    if rest is None || x is None || y is None || left is None || top is None || right is None
        || bottom is None {
        Err(ErrorKind::TypeMismatch)
    } else {
        let all = if rest->Some_0 is Some {
            rest->Some_0
        } else {
            found
        };
        match find_idx(pos1, TargetKind::Content) {
            None => Err(ErrorKind::MissingArgument),
            Some(bi) => {
                let body = match pos1[bi].v {
                    Value::Content(c) => c,
                    _ => arbitrary(),
                };
                Ok(
                    PadNode {
                        padding: (Sides {
                            left: resolved_side(left->Some_0, x->Some_0, all),
                            top: resolved_side(top->Some_0, y->Some_0, all),
                            right: resolved_side(right->Some_0, x->Some_0, all),
                            bottom: resolved_side(bottom->Some_0, y->Some_0, all),
                        }),
                        body,
                    },
                )
            },
        }
    }
}

/// Given only an axis-level shorthand, both sides of that axis take its
/// value.
pub proof fn lemma_axis_fills_both_sides(
    pos0: Seq<Spanned<Value>>,
    named0: Map<ArgKey, Spanned<Value>>,
)
    requires
        spec_pad_construct(pos0, named0) is Ok,
        !named0.contains_key(ArgKey::Left),
        !named0.contains_key(ArgKey::Right),
        !named0.contains_key(ArgKey::Rest),
        named0.contains_key(ArgKey::X),
        scale_size_of(named0[ArgKey::X].v) is Some,
        find_idx(pos0, TargetKind::ScaleSize) is None,
    ensures
        spec_pad_construct(pos0, named0)->Ok_0.padding.left == scale_size_of(
            named0[ArgKey::X].v,
        )->Some_0,
        spec_pad_construct(pos0, named0)->Ok_0.padding.right == scale_size_of(
            named0[ArgKey::X].v,
        )->Some_0,
{
}

impl PadNode {
    /// Construct a padding node from call arguments: the per-side keywords
    /// win over the axis shorthands `x` and `y`, which win over the
    /// catch-all `rest` keyword or first positional value, and every side
    /// missing all of those defaults to zero; the body is the first content
    /// block among the remaining positional arguments.
    pub fn construct(vm: &Vm, args: &mut Args) -> (r: Result<Content, TypesetError>)
        requires
            old(args).wf(),
        ensures
            final(args).wf(),
            match r {
                Ok(c) => {
                    &&& spec_pad_construct(old(args).pos@, old(args).named@) is Ok
                    &&& c matches Content::Pad(b) && *b == spec_pad_construct(
                        old(args).pos@,
                        old(args).named@,
                    )->Ok_0 && b.wf()
                },
                Err(e) => {
                    &&& spec_pad_construct(old(args).pos@, old(args).named@) is Err
                    &&& e.kind == spec_pad_construct(old(args).pos@, old(args).named@)->Err_0
                },
            },
    {
        let rest = match args.named_scale_size(ArgKey::Rest) {
            Ok(o) => o,
            Err(e) => return Err(e),
        };
        let found = args.find_scale_size();
        let all = match rest {
            Some(l) => Some(l),
            None => found,
        };
        let x = match args.named_scale_size(ArgKey::X) {
            Ok(o) => o,
            Err(e) => return Err(e),
        };
        let y = match args.named_scale_size(ArgKey::Y) {
            Ok(o) => o,
            Err(e) => return Err(e),
        };
        let left_s = match args.named_scale_size(ArgKey::Left) {
            Ok(o) => o,
            Err(e) => return Err(e),
        };
        let top_s = match args.named_scale_size(ArgKey::Top) {
            Ok(o) => o,
            Err(e) => return Err(e),
        };
        let right_s = match args.named_scale_size(ArgKey::Right) {
            Ok(o) => o,
            Err(e) => return Err(e),
        };
        let bottom_s = match args.named_scale_size(ArgKey::Bottom) {
            Ok(o) => o,
            Err(e) => return Err(e),
        };
        let left = resolve_side(left_s, x, all);
        let top = resolve_side(top_s, y, all);
        let right = resolve_side(right_s, x, all);
        let bottom = resolve_side(bottom_s, y, all);
        let body = match args.expect_content() {
            Ok(c) => c,
            Err(e) => return Err(e),
        };
        let padding = Sides::new(left, top, right, bottom);
        Ok(Content::Pad(Box::new(PadNode { padding, body })))
    }
}

/// Zero padding is the identity of the shrink pass.
pub proof fn lemma_shrink_zero(r: int)
    ensures
        shrink1(r, 0, 0) == r,
{
    assert(0 * r == 0) by (nonlinear_arith);
    assert(0int / (SCALE as int) == 0);
}

/// Zero padding is the identity of the grow pass.
pub proof fn lemma_grow_zero(s: int)
    requires
        0 <= s,
    ensures
        grow1(s, 0, 0) == s,
{
    let sc = SCALE as int;
    assert((s + 0) * sc / (sc - 0) == s) by (nonlinear_arith)
        requires
            0 <= s,
            sc == 1000,
    ;
}

/// Zero padding is the identity of both passes, on both axes.
pub proof fn lemma_zero_padding_identity(s: Size)
    requires
        s.wf(),
    ensures
        shrink1(s.x as int, 0, 0) == s.x,
        shrink1(s.y as int, 0, 0) == s.y,
        grow1(s.x as int, 0, 0) == s.x,
        grow1(s.y as int, 0, 0) == s.y,
{
    lemma_shrink_zero(s.x as int);
    lemma_shrink_zero(s.y as int);
    lemma_grow_zero(s.x as int);
    lemma_grow_zero(s.y as int);
}

/// Shrink/grow inverse law: for any non-degenerate padding (both axis
/// totals of the relative fractions below one) and any content size, growing
/// and then shrinking gives the content size back exactly, on both axes
/// independently.
pub proof fn lemma_shrink_grow_inverse(s: Size, padding: Sides)
    requires
        padding.wf(),
        s.wf(),
        padding.hrel() < SCALE,
        padding.vrel() < SCALE,
    ensures
        shrink1(grow1(s.x as int, padding.hrel(), padding.habs()), padding.hrel(), padding.habs())
            == s.x,
        shrink1(grow1(s.y as int, padding.vrel(), padding.vabs()), padding.vrel(), padding.vabs())
            == s.y,
{
    lemma_shrink_grow_inverse_axis(s.x as int, padding.hrel(), padding.habs());
    lemma_shrink_grow_inverse_axis(s.y as int, padding.vrel(), padding.vabs());
}

} // verus!
