//! Points, rectangles, and what is on which output.
use vstd::prelude::*;

use crate::ewm::EwmView;
use crate::geometry::{Point, Rectangle, Size};
use crate::space::{lemma_first_output, OutputView, SpaceView};

verus! {

/// Whether the edges of a rectangle are coordinates, and its sides no less than
/// nothing.
pub open spec fn is_proper(r: Rectangle) -> bool {
    &&& 0 <= r.size.w
    &&& 0 <= r.size.h
    &&& r.loc.x + r.size.w <= i32::MAX
    &&& r.loc.y + r.size.h <= i32::MAX
}

/// Whether a point is in a rectangle: not left of it, not above it, and less
/// than its width and height away from its corner.
pub open spec fn is_in(p: Point, r: Rectangle) -> bool {
    &&& 0 <= p.x - r.loc.x < r.size.w
    &&& 0 <= p.y - r.loc.y < r.size.h
}

/// A rectangle contains the points that are in it.
pub proof fn lemma_contained_points(r: Rectangle, p: Point)
    requires
        is_proper(r),
    ensures
        r.contains_spec(p) <==> is_in(p, r),
{
}

/// Two rectangles overlap exactly where some point is in both.
pub proof fn lemma_overlap_is_a_common_point(a: Rectangle, b: Rectangle)
    requires
        is_proper(a),
        is_proper(b),
        a.size.w > 0 && a.size.h > 0 && b.size.w > 0 && b.size.h > 0,
    ensures
        a.overlaps_spec(b) <==> exists|p: Point| is_in(p, a) && is_in(p, b),
{
    if a.overlaps_spec(b) {
        let x = if a.loc.x > b.loc.x {
            a.loc.x
        } else {
            b.loc.x
        };
        let y = if a.loc.y > b.loc.y {
            a.loc.y
        } else {
            b.loc.y
        };
        let p = Point { x, y };
        assert(is_in(p, a) && is_in(p, b));
    }
    if exists|p: Point| is_in(p, a) && is_in(p, b) {
        let p = choose|p: Point| is_in(p, a) && is_in(p, b);
    }
}

/// The common part of two rectangles holds exactly the points that are in both,
/// and there is none exactly where they do not overlap.
pub proof fn lemma_common_part(a: Rectangle, b: Rectangle, p: Point)
    requires
        is_proper(a),
        is_proper(b),
    ensures
        match a.intersection_spec(b) {
            Some(c) => a.overlaps_spec(b) && (c.size.w < i32::MAX && c.size.h < i32::MAX ==> (is_in(
                p,
                c,
            ) <==> is_in(p, a) && is_in(p, b))),
            None => !a.overlaps_spec(b),
        },
{
}

/// A point that is moved by an offset is that far away, and seen from where it
/// was moved from it is the offset again.
pub proof fn lemma_offsets(p: Point, d: Point)
    requires
        i32::MIN <= p.x + d.x <= i32::MAX,
        i32::MIN <= p.y + d.y <= i32::MAX,
    ensures
        p.offset_spec(d).x == p.x + d.x,
        p.offset_spec(d).y == p.y + d.y,
        p.offset_spec(d).relative_spec(p) == d,
        p.offset_spec(d) == d.offset_spec(p),
{
}

/// A point as seen from another one is their difference.
pub proof fn lemma_differences(p: Point, from: Point)
    requires
        i32::MIN <= p.x - from.x <= i32::MAX,
        i32::MIN <= p.y - from.y <= i32::MAX,
    ensures
        p.relative_spec(from).x == p.x - from.x,
        p.relative_spec(from).y == p.y - from.y,
{
}

/// The rectangle of an output is where it stands, as large as it is.
pub proof fn lemma_output_rectangle(o: OutputView, size: Size)
    ensures
        o.geometry().loc == o.loc,
        o.geometry().size == o.size,
        Rectangle::from_size_spec(size).loc == (Point { x: 0, y: 0 }),
        Rectangle::from_size_spec(size).size == size,
{
}

/// Whether all outputs have proper rectangles.
pub open spec fn outputs_proper(outputs: Seq<OutputView>) -> bool {
    forall|i: int|
        0 <= i < outputs.len() ==> is_proper(
            Rectangle { loc: (#[trigger] outputs[i]).loc, size: outputs[i].size },
        )
}

/// Whether output `i` is the first that a point is in.
pub open spec fn first_with_point(outputs: Seq<OutputView>, p: Point, i: int) -> bool {
    &&& 0 <= i < outputs.len()
    &&& is_in(p, Rectangle { loc: outputs[i].loc, size: outputs[i].size })
    &&& forall|j: int|
        0 <= j < i ==> !is_in(
            p,
            Rectangle { loc: (#[trigger] outputs[j]).loc, size: outputs[j].size },
        )
}

/// Whether a point is in no output.
pub open spec fn off_all(outputs: Seq<OutputView>, p: Point) -> bool {
    forall|j: int|
        0 <= j < outputs.len() ==> !is_in(
            p,
            Rectangle { loc: (#[trigger] outputs[j]).loc, size: outputs[j].size },
        )
}

/// The output that shows a point is the first that the point is in; none does
/// only where it is in none.
pub proof fn lemma_output_showing(s: SpaceView, p: Point)
    requires
        outputs_proper(s.outputs),
    ensures
        match s.output_showing(p) {
            Some(o) => exists|i: int| #[trigger]
                first_with_point(s.outputs, p, i) && s.outputs[i] == o,
            None => off_all(s.outputs, p),
        },
{
    let wanted = |o: OutputView| o.geometry().contains_spec(p);
    lemma_first_output(s.outputs, wanted);
    assert forall|i: int| 0 <= i < s.outputs.len() implies wanted(#[trigger] s.outputs[i])
        == is_in(p, Rectangle { loc: s.outputs[i].loc, size: s.outputs[i].size }) by {
        lemma_contained_points(s.outputs[i].geometry(), p);
    }
    match s.output_showing(p) {
        Some(o) => {
            let i = choose|i: int|
                0 <= i < s.outputs.len() && s.outputs[i] == o && wanted(o) && forall|j: int|
                    0 <= j < i ==> !wanted(#[trigger] s.outputs[j]);
            assert(wanted(s.outputs[i]));
            assert(first_with_point(s.outputs, p, i));
        },
        None => {},
    }
}

/// A surface is on the first output that its corner is in, or else on the first
/// of all; one that is not mapped is on none.
pub proof fn lemma_output_of_a_surface(s: EwmView, id: u32)
    requires
        outputs_proper(s.space.outputs),
    ensures
        !s.id_windows.contains_key(id) ==> s.surface_output(id) is None,
        s.id_windows.contains_key(id) ==> match s.space.element_location(s.id_windows[id]) {
            None => s.surface_output(id) is None,
            Some(at) => match s.surface_output(id) {
                Some(name) => {
                    ||| exists|i: int| #[trigger]
                        first_with_point(s.space.outputs, at, i) && s.space.outputs[i].name == name
                    ||| off_all(s.space.outputs, at) && s.space.outputs.len() > 0
                        && s.space.outputs[0].name == name
                },
                None => s.space.outputs.len() == 0,
            },
        },
{
    if s.id_windows.contains_key(id) {
        if let Some(at) = s.space.element_location(s.id_windows[id]) {
            lemma_output_showing(s.space, at);
        }
    }
}

/// The output under the pointer is the first that the pointer is in.
pub proof fn lemma_output_of_the_pointer(s: EwmView)
    requires
        outputs_proper(s.space.outputs),
    ensures
        match s.output_under_cursor() {
            Some(name) => exists|i: int| #[trigger]
                first_with_point(s.space.outputs, s.pointer_location.cell, i)
                    && s.space.outputs[i].name == name,
            None => off_all(s.space.outputs, s.pointer_location.cell),
        },
{
    lemma_output_showing(s.space, s.pointer_location.cell);
}

/// A new surface goes to the output under the pointer, before that of the
/// focused surface, before the first one.
pub proof fn lemma_output_for_a_new_surface(s: EwmView)
    ensures
        s.output_under_cursor() is Some ==> s.active_output() == s.output_under_cursor(),
        s.output_under_cursor() is None && s.focused_surface_id != 0 && s.surface_output(
            s.focused_surface_id,
        ) is Some ==> s.active_output() == s.surface_output(s.focused_surface_id),
        s.output_under_cursor() is None && (s.focused_surface_id == 0 || s.surface_output(
            s.focused_surface_id,
        ) is None) ==> match s.active_output() {
            Some(name) => s.space.outputs.len() > 0 && s.space.outputs[0].name == name,
            None => s.space.outputs.len() == 0,
        },
{
}

} // verus!
