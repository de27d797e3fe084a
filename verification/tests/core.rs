//! Tests of the layout core: the deduplicating map, argument extraction,
//! padding arithmetic, the layout protocol, and function dispatch.
use typeset_core::args::{ArgKey, Args, Value};
use typeset_core::layout::{
    layout_content, BoxNode, Content, LayoutStyle, PageStyle, Regions,
};
use typeset_core::map::ConsistentMap;
use typeset_core::pad::{grow, shrink, PadNode};
use typeset_core::scope::{NodeCtor, Scope, Vm};
use typeset_core::sides::Sides;
use typeset_core::size::{safe_div, Length, Point, Size};
use typeset_core::syntax::{Ident, Span, Spanned};
use typeset_core::{ErrorKind, TypesetError};

fn zero_sides() -> Sides {
    Sides::new(Length::zero(), Length::zero(), Length::zero(), Length::zero())
}

fn style() -> LayoutStyle {
    LayoutStyle {
        page: PageStyle { size: Size { x: 1000, y: 1000 }, margins: zero_sides() },
    }
}

fn vm() -> Vm {
    Vm { style: style() }
}

fn sp(v: Value) -> Spanned<Value> {
    Spanned::new(v, Span::new(0, 0))
}

fn body_box(x: i64, y: i64) -> Value {
    Value::Content(Content::Boxed(BoxNode { size: Size { x, y } }))
}

// ---- ConsistentMap ----

#[test]
fn map_overwrite_last_wins() {
    let mut map: ConsistentMap<u64, i64> = ConsistentMap::new();
    map.add(1, 10).unwrap();
    map.add(1, 20).unwrap();
    assert_eq!(map.get(&1), Some(&20));
    assert_eq!(map.iter().len(), 1);
}

#[test]
fn map_with_calls_back_on_present_key() {
    let mut map: ConsistentMap<u64, i64> = ConsistentMap::new();
    map.add(4, 7).unwrap();
    map.add(4, 9).unwrap();
    let mut seen = None;
    map.with(4, |v| seen = Some(*v));
    assert_eq!(seen, Some(9));
}

#[test]
fn map_with_skips_absent_key() {
    let map: ConsistentMap<u64, i64> = ConsistentMap::new();
    let mut called = false;
    map.with(4, |_| called = true);
    assert!(!called);
}

#[test]
fn map_add_opt_and_span() {
    let mut map: ConsistentMap<u64, i64> = ConsistentMap::new();
    map.add_opt(1, None).unwrap();
    assert_eq!(map.get(&1), None);
    map.add_opt(1, Some(5)).unwrap();
    assert_eq!(map.get(&1), Some(&5));
    map.add_opt_span(2, Some(Spanned::new(8, Span::new(3, 4)))).unwrap();
    assert_eq!(map.get(&2), Some(&8));
    map.add_opt_span(3, None).unwrap();
    assert_eq!(map.get(&3), None);
}

#[test]
fn map_dedup_remaps_distinct_keys() {
    let mut map: ConsistentMap<u64, i64> = ConsistentMap::new();
    map.add(1, 10).unwrap();
    map.add(2, 20).unwrap();
    let out = map.dedup(|k: &u64, v: &i64| Ok((*k + 100, *v * 2))).unwrap();
    assert_eq!(out.get(&101), Some(&20));
    assert_eq!(out.get(&102), Some(&40));
    assert_eq!(out.iter().len(), 2);
}

#[test]
fn map_dedup_collision_is_duplicate_error() {
    let mut map: ConsistentMap<u64, i64> = ConsistentMap::new();
    map.add(1, 10).unwrap();
    map.add(2, 20).unwrap();
    let out = map.dedup(|_k: &u64, v: &i64| Ok((0u64, *v)));
    let err = out.err().expect("collision must fail");
    assert_eq!(err.kind, ErrorKind::DuplicateArgument);
}

#[test]
fn map_dedup_propagates_closure_error() {
    let mut map: ConsistentMap<u64, i64> = ConsistentMap::new();
    map.add(1, 10).unwrap();
    let out: Result<ConsistentMap<u64, i64>, TypesetError> =
        map.dedup(|_k: &u64, _v: &i64| Err(TypesetError::with_message("boom".to_string())));
    let err = out.err().expect("error must propagate");
    assert_eq!(err.kind, ErrorKind::Message);
    assert_eq!(err.message, "boom");
}

// ---- errors ----

#[test]
fn with_message_keeps_message_and_no_span() {
    let e = TypesetError::with_message("out of ink".to_string());
    assert_eq!(e.kind, ErrorKind::Message);
    assert_eq!(e.message, "out of ink");
    assert!(e.span.is_none());
}

// ---- identifiers ----

#[test]
fn ident_accepts_and_rejects() {
    assert!(Ident::new(b"pad".to_vec()).is_ok());
    assert!(Ident::new(b"a-b_c9".to_vec()).is_ok());
    let bad = Ident::new(b"9bad".to_vec()).err().expect("digit start");
    assert_eq!(bad.kind, ErrorKind::InvalidIdent);
    let empty = Ident::new(Vec::new()).err().expect("empty");
    assert_eq!(empty.kind, ErrorKind::InvalidIdent);
    let space = Ident::new(b"a b".to_vec()).err().expect("space");
    assert_eq!(space.kind, ErrorKind::InvalidIdent);
}

// ---- length and safe division ----

#[test]
fn safe_div_zero_divisor_is_zero() {
    assert_eq!(safe_div(10, 0), 0);
    assert_eq!(safe_div(7, 2), 3);
    assert_eq!(safe_div(7, -2), -3);
}

#[test]
fn length_resolve_mixes_parts() {
    let l = Length { rel: 500, abs: 30 };
    assert_eq!(l.resolve(200), 130);
    assert_eq!(Length::zero().resolve(200), 0);
}

// ---- shrink and grow ----

#[test]
fn zero_padding_is_identity() {
    let p = zero_sides();
    let r = Size { x: 640, y: 480 };
    assert_eq!(shrink(r, p), r);
    assert_eq!(grow(r, p), r);
}

#[test]
fn shrink_after_grow_restores_content_size() {
    let p = Sides::new(
        Length { rel: 300, abs: 7 },
        Length { rel: 123, abs: 1 },
        Length { rel: 200, abs: 5 },
        Length { rel: 456, abs: 9 },
    );
    let s = Size { x: 123, y: 456 };
    assert_eq!(shrink(grow(s, p), p), s);
}

#[test]
fn grow_full_relative_fraction_degrades_to_zero() {
    let p = Sides::new(
        Length { rel: 1000, abs: 0 },
        Length::zero(),
        Length::zero(),
        Length::zero(),
    );
    let g = grow(Size { x: 10, y: 10 }, p);
    assert_eq!(g.x, 0);
    assert_eq!(g.y, 10);
}

#[test]
fn grow_relative_half_doubles() {
    // A padding of 50% on one side must solve w - 0.5 w == 100.
    let p = Sides::new(Length { rel: 500, abs: 0 }, Length::zero(), Length::zero(), Length::zero());
    let g = grow(Size { x: 100, y: 40 }, p);
    assert_eq!(g.x, 200);
    assert_eq!(g.y, 40);
}

// ---- layout protocol ----

#[test]
fn empty_region_sequence_is_invariant_violation() {
    let content = Content::Boxed(BoxNode { size: Size { x: 10, y: 10 } });
    let regions = Regions::new(Vec::new());
    let err = layout_content(&content, &style(), &regions).err().expect("must reject");
    assert_eq!(err.kind, ErrorKind::EmptyRegions);
}

#[test]
fn box_respects_expand_flags() {
    let content = Content::Boxed(BoxNode { size: Size { x: 10, y: 10 } });
    let regions = Regions::one(Size { x: 300, y: 200 }, true, false);
    let frag = layout_content(&content, &style(), &regions).unwrap();
    assert_eq!(frag.frames.len(), 1);
    assert_eq!(frag.frames[0].size, Size { x: 300, y: 10 });
}

#[test]
fn absolute_padding_scenario() {
    // left=10abs, top=0, right=10abs, bottom=0 around content (80, 50) in a
    // region (100, 100): final frame (100, 50), child moved to (10, 0).
    let padding = Sides::new(
        Length::from_abs(10),
        Length::zero(),
        Length::from_abs(10),
        Length::zero(),
    );
    let content = Content::Pad(Box::new(PadNode {
        padding,
        body: Content::Boxed(BoxNode { size: Size { x: 80, y: 50 } }),
    }));
    let regions = Regions::one(Size { x: 100, y: 100 }, false, false);
    let frag = layout_content(&content, &style(), &regions).unwrap();
    assert_eq!(frag.frames.len(), 1);
    assert_eq!(frag.frames[0].size, Size { x: 100, y: 50 });
    assert_eq!(frag.frames[0].elements.len(), 1);
    assert_eq!(frag.frames[0].elements[0].pos, Point { x: 10, y: 0 });
    assert_eq!(frag.frames[0].elements[0].size, Size { x: 80, y: 50 });
}

#[test]
fn relative_padding_scenario() {
    // left=50% around content of width 100: grown width solves
    // w - 0.5 w == 100, so w == 200 with a resolved left inset of 100.
    let padding = Sides::new(Length::from_rel(500), Length::zero(), Length::zero(), Length::zero());
    let content = Content::Pad(Box::new(PadNode {
        padding,
        body: Content::Boxed(BoxNode { size: Size { x: 100, y: 40 } }),
    }));
    let regions = Regions::one(Size { x: 300, y: 300 }, false, false);
    let frag = layout_content(&content, &style(), &regions).unwrap();
    assert_eq!(frag.frames.len(), 1);
    assert_eq!(frag.frames[0].size, Size { x: 200, y: 40 });
    assert_eq!(frag.frames[0].elements[0].pos, Point { x: 100, y: 0 });
}

#[test]
fn nested_padding_composes() {
    let outer = Sides::new(Length::from_abs(5), Length::from_abs(5), Length::from_abs(5), Length::from_abs(5));
    let inner = Sides::new(Length::from_abs(2), Length::zero(), Length::zero(), Length::zero());
    let content = Content::Pad(Box::new(PadNode {
        padding: outer,
        body: Content::Pad(Box::new(PadNode {
            padding: inner,
            body: Content::Boxed(BoxNode { size: Size { x: 20, y: 10 } }),
        })),
    }));
    let regions = Regions::one(Size { x: 100, y: 100 }, false, false);
    let frag = layout_content(&content, &style(), &regions).unwrap();
    assert_eq!(frag.frames[0].size, Size { x: 32, y: 20 });
    assert_eq!(frag.frames[0].elements[0].pos, Point { x: 7, y: 5 });
}

// ---- argument extraction ----

#[test]
fn extract_positional_front_only() {
    let mut args = Args::new(vec![sp(Value::Number(250))], ConsistentMap::new());
    let l = args.extract_positional_scale_size().unwrap();
    assert_eq!(l, Length { rel: 250, abs: 0 });
    let err = args.extract_positional_scale_size().err().expect("now empty");
    assert_eq!(err.kind, ErrorKind::MissingArgument);
}

#[test]
fn extract_positional_type_mismatch() {
    let mut args = Args::new(vec![sp(body_box(1, 1))], ConsistentMap::new());
    let err = args.extract_positional_scale_size().err().expect("content is no size");
    assert_eq!(err.kind, ErrorKind::TypeMismatch);
}

#[test]
fn find_scale_size_scans_past_other_kinds() {
    let mut args = Args::new(
        vec![sp(body_box(1, 1)), sp(Value::Size(44))],
        ConsistentMap::new(),
    );
    assert_eq!(args.find_scale_size(), Some(Length { rel: 0, abs: 44 }));
    assert_eq!(args.find_scale_size(), None);
}

#[test]
fn named_size_rejects_number() {
    let mut named = ConsistentMap::new();
    named.add(ArgKey::Width, sp(Value::Number(3))).unwrap();
    let mut args = Args::new(Vec::new(), named);
    let err = args.named_size(ArgKey::Width).err().expect("numbers are no sizes");
    assert_eq!(err.kind, ErrorKind::TypeMismatch);
}

// ---- padding construction and precedence ----

fn construct_pad(pos: Vec<Spanned<Value>>, named: ConsistentMap<ArgKey, Spanned<Value>>) -> PadNode {
    let mut args = Args::new(pos, named);
    match PadNode::construct(&vm(), &mut args).unwrap() {
        Content::Pad(b) => *b,
        _ => panic!("expected a padding node"),
    }
}

#[test]
fn side_level_beats_axis_level() {
    let mut named = ConsistentMap::new();
    named.add(ArgKey::Left, sp(Value::Size(7))).unwrap();
    named.add(ArgKey::X, sp(Value::Size(3))).unwrap();
    let node = construct_pad(vec![sp(body_box(1, 1))], named);
    assert_eq!(node.padding.left, Length { rel: 0, abs: 7 });
    assert_eq!(node.padding.right, Length { rel: 0, abs: 3 });
    assert_eq!(node.padding.top, Length::zero());
    assert_eq!(node.padding.bottom, Length::zero());
}

#[test]
fn axis_level_fills_both_sides() {
    let mut named = ConsistentMap::new();
    named.add(ArgKey::X, sp(Value::Size(9))).unwrap();
    let node = construct_pad(vec![sp(body_box(1, 1))], named);
    assert_eq!(node.padding.left, Length { rel: 0, abs: 9 });
    assert_eq!(node.padding.right, Length { rel: 0, abs: 9 });
    assert_eq!(node.padding.top, Length::zero());
}

#[test]
fn all_value_fills_unset_sides() {
    let mut named = ConsistentMap::new();
    named.add(ArgKey::Rest, sp(Value::Size(4))).unwrap();
    named.add(ArgKey::Top, sp(Value::Size(1))).unwrap();
    let node = construct_pad(vec![sp(body_box(1, 1))], named);
    assert_eq!(node.padding.left, Length { rel: 0, abs: 4 });
    assert_eq!(node.padding.right, Length { rel: 0, abs: 4 });
    assert_eq!(node.padding.top, Length { rel: 0, abs: 1 });
    assert_eq!(node.padding.bottom, Length { rel: 0, abs: 4 });
}

#[test]
fn positional_value_is_catch_all() {
    let node = construct_pad(vec![sp(Value::Number(500)), sp(body_box(1, 1))], ConsistentMap::new());
    assert_eq!(node.padding.left, Length { rel: 500, abs: 0 });
    assert_eq!(node.padding.bottom, Length { rel: 500, abs: 0 });
}

#[test]
fn no_values_default_to_zero() {
    let node = construct_pad(vec![sp(body_box(1, 1))], ConsistentMap::new());
    assert_eq!(node.padding.left, Length::zero());
    assert_eq!(node.padding.top, Length::zero());
    assert_eq!(node.padding.right, Length::zero());
    assert_eq!(node.padding.bottom, Length::zero());
}

#[test]
fn construct_without_body_is_missing_argument() {
    let mut args = Args::new(Vec::new(), ConsistentMap::new());
    let err = PadNode::construct(&vm(), &mut args).err().expect("no body given");
    assert_eq!(err.kind, ErrorKind::MissingArgument);
}

#[test]
fn construct_with_content_side_is_type_mismatch() {
    let mut named = ConsistentMap::new();
    named.add(ArgKey::Left, sp(body_box(1, 1))).unwrap();
    let mut args = Args::new(vec![sp(body_box(1, 1))], named);
    let err = PadNode::construct(&vm(), &mut args).err().expect("content is no length");
    assert_eq!(err.kind, ErrorKind::TypeMismatch);
}

// ---- dispatch ----

#[test]
fn std_scope_knows_pad_and_box() {
    let scope = Scope::with_std();
    let pad = Ident::new(b"pad".to_vec()).unwrap();
    let boxed = Ident::new(b"box".to_vec()).unwrap();
    assert_eq!(scope.get(&pad), Some(NodeCtor::Pad));
    assert_eq!(scope.get(&boxed), Some(NodeCtor::Boxed));
    let other = Ident::new(b"grid".to_vec()).unwrap();
    assert_eq!(scope.get(&other), None);
}

#[test]
fn dispatch_builds_padding_node() {
    let scope = Scope::with_std();
    let pad = Ident::new(b"pad".to_vec()).unwrap();
    let mut named = ConsistentMap::new();
    named.add(ArgKey::Y, sp(Value::Number(100))).unwrap();
    let mut args = Args::new(vec![sp(body_box(2, 2))], named);
    match scope.construct(&vm(), &pad, &mut args).unwrap() {
        Content::Pad(b) => {
            assert_eq!(b.padding.top, Length { rel: 100, abs: 0 });
            assert_eq!(b.padding.bottom, Length { rel: 100, abs: 0 });
            assert_eq!(b.padding.left, Length::zero());
        }
        _ => panic!("expected a padding node"),
    }
}

#[test]
fn dispatch_builds_box_node() {
    let scope = Scope::with_std();
    let boxed = Ident::new(b"box".to_vec()).unwrap();
    let mut named = ConsistentMap::new();
    named.add(ArgKey::Width, sp(Value::Size(30))).unwrap();
    named.add(ArgKey::Height, sp(Value::Size(40))).unwrap();
    let mut args = Args::new(Vec::new(), named);
    match scope.construct(&vm(), &boxed, &mut args).unwrap() {
        Content::Boxed(b) => assert_eq!(b.size, Size { x: 30, y: 40 }),
        _ => panic!("expected a box node"),
    }
}

#[test]
fn dispatch_unknown_function_errors() {
    let scope = Scope::with_std();
    let name = Ident::new(b"grid".to_vec()).unwrap();
    let mut args = Args::new(Vec::new(), ConsistentMap::new());
    let err = scope.construct(&vm(), &name, &mut args).err().expect("unknown name");
    assert_eq!(err.kind, ErrorKind::UnknownFunction);
}

#[test]
fn constructed_node_lays_out_end_to_end() {
    let scope = Scope::with_std();
    let pad = Ident::new(b"pad".to_vec()).unwrap();
    let mut named = ConsistentMap::new();
    named.add(ArgKey::Left, sp(Value::Size(10))).unwrap();
    named.add(ArgKey::Right, sp(Value::Size(10))).unwrap();
    let mut args = Args::new(vec![sp(body_box(80, 50))], named);
    let content = scope.construct(&vm(), &pad, &mut args).unwrap();
    let regions = Regions::one(Size { x: 100, y: 100 }, false, false);
    let frag = layout_content(&content, &style(), &regions).unwrap();
    assert_eq!(frag.frames[0].size, Size { x: 100, y: 50 });
    assert_eq!(frag.frames[0].elements[0].pos, Point { x: 10, y: 0 });
}

#[test]
fn extract_keyword_required_errors_when_absent() {
    let mut args = Args::new(Vec::new(), ConsistentMap::new());
    let err = args.extract_keyword_scale_size(ArgKey::Left).err().expect("absent key");
    assert_eq!(err.kind, ErrorKind::MissingArgument);
    let mut named = ConsistentMap::new();
    named.add(ArgKey::Left, sp(Value::Number(300))).unwrap();
    let mut args = Args::new(Vec::new(), named);
    let l = args.extract_keyword_scale_size(ArgKey::Left).unwrap();
    assert_eq!(l, Length { rel: 300, abs: 0 });
}

#[test]
fn extract_positional_number_rejects_size() {
    let mut args = Args::new(vec![sp(Value::Number(42))], ConsistentMap::new());
    assert_eq!(args.extract_positional_number().unwrap(), 42);
    let mut args = Args::new(vec![sp(Value::Size(42))], ConsistentMap::new());
    let err = args.extract_positional_number().err().expect("sizes are no numbers");
    assert_eq!(err.kind, ErrorKind::TypeMismatch);
}
