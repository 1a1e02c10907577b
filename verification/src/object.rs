use crate::clip::overlaps;
use crate::geometry::{Coordinate, Dimension};
use crate::region::{Region, RegionView};
use vstd::prelude::*;

verus! {

/// Marks a type as something a scene can own.
pub trait GameObject {

}

/// Something that runs a script: once when it is set up, then once for
/// every update.
pub trait Scriptable {
    fn setup(&mut self);

    fn update(&mut self);
}

/// Something that can be drawn: a visual, the position of its top-left
/// cell, and a size that is always the size of the visual.
pub trait Renderable {
    /// The visual that is drawn.
    spec fn visual(&self) -> RegionView;

    /// Where the top-left cell of the visual goes.
    spec fn placement(&self) -> Coordinate;

    fn get_visual(&self) -> (visual: &Region)
        ensures
            visual@ == self.visual(),
    ;

    /// Replaces the visual. The size follows in the same step.
    fn set_visual(&mut self, new: Region)
        ensures
            final(self).visual() == new@,
            final(self).placement() == old(self).placement(),
    ;

    fn get_placement(&self) -> (placement: &Coordinate)
        ensures
            *placement == self.placement(),
    ;

    fn set_placement(&mut self, new: Coordinate)
        ensures
            final(self).placement() == new,
            final(self).visual() == old(self).visual(),
    ;

    fn get_size(&self) -> (size: &Dimension)
        ensures
            size.x == self.visual().width,
            size.y == self.visual().height,
    ;
}

/// Something that other things can collide with.
pub trait Collidable {
    fn get_collision(&self) -> &Region;

    fn set_collision(&mut self, new: Region);

    fn check_collision(&self) -> Option<String>;
}

/// How far from the origin, on both axes, a new object is placed until it
/// is moved.
pub const DEFAULT_OFFSET: i32 = 8;

/// Where a new object is placed until it is moved.
pub open spec fn default_placement() -> Coordinate {
    Coordinate { x: DEFAULT_OFFSET, y: DEFAULT_OFFSET }
}

/// A visual with a placement and a layer. Objects on higher layers are
/// drawn over objects on lower ones.
#[derive(Debug)]
pub struct Object {
    placement: Coordinate,
    visual: Region,
    size: Dimension,
    layer: usize,
}

/// The mathematical content of an object. Its size is the size of its
/// visual.
#[verifier::ext_equal]
pub struct ObjectView {
    pub placement: Coordinate,
    pub visual: RegionView,
    pub layer: usize,
}

impl ObjectView {
    /// Whether the object has a cell at canvas position `(x, y)`.
    pub open spec fn covers(self, x: int, y: int) -> bool {
        self.visual.contains(x - self.placement.x, y - self.placement.y)
    }

    /// The text of the object's cell at canvas position `(x, y)`.
    pub open spec fn shown_at(self, x: int, y: int) -> Seq<char> {
        self.visual.at(x - self.placement.x, y - self.placement.y)
    }

    /// Whether any cell of the object falls on a `width` by `height`
    /// canvas.
    pub open spec fn visible_on(self, width: nat, height: nat) -> bool {
        overlaps(self.placement.x as int, self.visual.width as int, width as int) && overlaps(
            self.placement.y as int,
            self.visual.height as int,
            height as int,
        )
    }
}

impl View for Object {
    type V = ObjectView;

    closed spec fn view(&self) -> ObjectView {
        ObjectView { placement: self.placement, visual: self.visual@, layer: self.layer }
    }
}

impl Object {
    /// The stored size is the size of the visual.
    #[verifier::type_invariant]
    pub closed spec fn inv(&self) -> bool {
        self.size.x == self.visual@.width && self.size.y == self.visual@.height
    }

    /// Wraps `visual` as an object on layer 0, [`DEFAULT_OFFSET`] cells from
    /// the origin on both axes.
    pub fn new(visual: Region) -> (object: Object)
        ensures
            object@ == (ObjectView { placement: default_placement(), visual: visual@, layer: 0 }),
    {
        let size = visual.size();
        Object {
            placement: Coordinate { x: DEFAULT_OFFSET, y: DEFAULT_OFFSET },
            visual,
            size,
            layer: 0,
        }
    }

    /// The layer the object is drawn on.
    pub fn layer(&self) -> (layer: usize)
        ensures
            layer == self@.layer,
    {
        self.layer
    }

    /// Moves the object to another layer.
    pub fn set_layer(&mut self, layer: usize)
        ensures
            final(self)@ == (ObjectView { layer, ..old(self)@ }),
        no_unwind
    {
        proof {
            use_type_invariant(&*self);
        }
        self.layer = layer;
    }
}

impl GameObject for Object {

}

impl Renderable for Object {
    open spec fn visual(&self) -> RegionView {
        self@.visual
    }

    open spec fn placement(&self) -> Coordinate {
        self@.placement
    }

    fn get_visual(&self) -> (visual: &Region)
        ensures
            visual@ == self@.visual,
    {
        &self.visual
    }

    fn set_visual(&mut self, new: Region)
        ensures
            final(self)@ == (ObjectView { visual: new@, ..old(self)@ }),
    {
        let size = new.size();
        *self = Object { placement: self.placement, visual: new, size, layer: self.layer };
    }

    fn get_placement(&self) -> (placement: &Coordinate)
        ensures
            *placement == self@.placement,
    {
        &self.placement
    }

    fn set_placement(&mut self, new: Coordinate)
        ensures
            final(self)@ == (ObjectView { placement: new, ..old(self)@ }),
    {
        proof {
            use_type_invariant(&*self);
        }
        self.placement = new;
    }

    fn get_size(&self) -> (size: &Dimension)
        ensures
            size.x == self@.visual.width,
            size.y == self@.visual.height,
    {
        proof {
            use_type_invariant(self);
        }
        &self.size
    }
}

} // verus!
