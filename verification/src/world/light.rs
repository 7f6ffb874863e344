//! Light sources and the points that they light.

use crate::color::Color;
use crate::shadow::field_of_view;
use crate::shadow::shape_of;
use crate::shadow::visible;
use crate::shadow::GridMap;
use crate::world::point::Point;
use vstd::prelude::*;

verus! {

/// How far a light reaches, in tiles.
pub const REACH: u16 = 8;

/// The kinds of light sources.
#[derive(Clone, Copy, Debug, PartialEq, Eq, Structural)]
pub enum LightComponentClassId {
    Player,
    Torch,
}

impl LightComponentClassId {
    /// The tint of the light.
    pub open spec fn color(self) -> Color {
        match self {
            LightComponentClassId::Player => Color::from_hex(0x0a0a0a),
            LightComponentClassId::Torch => Color::from_hex(0xff5000),
        }
    }
}

/// A light source: its kind, and the points that its last cast has lit.
#[derive(Debug)]
pub struct LightComponent {
    class: LightComponentClassId,
    lit_points: Vec<Point>,
}

/// What a light component holds.
pub struct LightView {
    pub class: LightComponentClassId,
    pub lit_points: Seq<Point>,
}

impl View for LightComponent {
    type V = LightView;

    closed spec fn view(&self) -> LightView {
        LightView { class: self.class, lit_points: self.lit_points@ }
    }
}

impl Clone for LightComponent {
    fn clone(&self) -> (copy: LightComponent)
        ensures
            copy@ == self@,
    {
        let lit_points = self.lit_points.clone();
        assert(lit_points@ =~= self.lit_points@);
        LightComponent { class: self.class, lit_points }
    }
}

/// The cells of a field of view as points.
pub open spec fn as_points(cells: Seq<(u16, u16)>) -> Seq<Point> {
    Seq::new(cells.len(), |i: int| point_of(cells[i]))
}

/// The point of a pair.
pub open spec fn point_of(cell: (u16, u16)) -> Point {
    Point { x: cell.0, y: cell.1 }
}

impl LightComponent {
    /// A light source that has lit nothing yet.
    pub fn new(class: LightComponentClassId) -> (component: LightComponent)
        ensures
            component@.class == class,
            component@.lit_points == Seq::<Point>::empty(),
    {
        LightComponent { class, lit_points: Vec::new() }
    }

    pub fn class(&self) -> (class: LightComponentClassId)
        ensures
            class == self@.class,
    {
        self.class
    }

    /// The tint of the light.
    pub fn color(&self) -> (color: Color)
        ensures
            color == self@.class.color(),
    {
        match self.class {
            LightComponentClassId::Player => Color::new(0x0a0a0a),
            LightComponentClassId::Torch => Color::new(0xff5000),
        }
    }

    pub fn lit_points(&self) -> (points: &Vec<Point>)
        ensures
            points@ == self@.lit_points,
    {
        &self.lit_points
    }

    pub fn clear_lit_points(&mut self)
        ensures
            final(self)@.class == old(self)@.class,
            final(self)@.lit_points == Seq::<Point>::empty(),
    {
        self.lit_points.clear();
    }
}

/// Casts the light of a source that stands at `pos`: every tile in view
/// within the light's reach is added to the points that the source has lit,
/// in the order of the field of view.
pub fn cast<M: GridMap>(light_component: &mut LightComponent, region: &M, pos: Point)
    ensures
        final(light_component)@.class == old(light_component)@.class,
        final(light_component)@.lit_points == old(light_component)@.lit_points + as_points(
            field_of_view(shape_of(region), (pos.x, pos.y), REACH as int),
        ),
{
    let cells = visible(region, pos.into_tuple(), REACH);
    let mut done: usize = 0;
    while done < cells.len()
        invariant
            done <= cells@.len(),
            light_component.class == old(light_component).class,
            light_component.lit_points@ == old(light_component).lit_points@ + as_points(
                cells@.take(done as int),
            ),
        decreases cells@.len() - done,
    {
        let cell = cells[done];
        light_component.lit_points.push(Point { x: cell.0, y: cell.1 });
        assert(as_points(cells@.take(done + 1)) =~= as_points(cells@.take(done as int)).push(
            point_of(cells@[done as int]),
        ));
        done = done + 1;
    }
    assert(cells@.take(done as int) =~= cells@);
}

} // verus!
