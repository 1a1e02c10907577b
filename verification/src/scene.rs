use crate::cell::{blank_text, Char};
use crate::clip::clip;
use crate::error::EngineError;
use crate::geometry::{Coordinate, Dimension};
use crate::object::{default_placement, Object, ObjectView, Renderable};
use crate::region::{Region, RegionView};
use crate::shapes::{outline, rectangle};
use vstd::prelude::*;

verus! {

/// The width of the visual that [`Scene::new_object`] gives an object.
pub const DEFAULT_WIDTH: usize = 10;

/// The height of the visual that [`Scene::new_object`] gives an object.
pub const DEFAULT_HEIGHT: usize = 8;

/// What [`Scene::new_object`] adds: the outline of a [`DEFAULT_WIDTH`] by
/// [`DEFAULT_HEIGHT`] rectangle on layer 0 at the default placement.
pub open spec fn default_object() -> ObjectView {
    ObjectView {
        placement: default_placement(),
        visual: outline(DEFAULT_WIDTH as nat, DEFAULT_HEIGHT as nat),
        layer: 0,
    }
}

/// Where `name` stands in `names`.
pub open spec fn position_of(names: Seq<Seq<char>>, name: Seq<char>) -> int {
    choose|i: int| 0 <= i < names.len() && names[i] == name
}

/// What shows at canvas position `(x, y)` once `objects` have been drawn
/// one after the other, each over what was there: the cell of the last
/// object that covers the position, or a blank if none does.
pub open spec fn composite(objects: Seq<ObjectView>, x: int, y: int) -> Seq<char>
    decreases objects.len(),
{
    if objects.len() == 0 {
        blank_text()
    } else if objects.last().covers(x, y) {
        objects.last().shown_at(x, y)
    } else {
        composite(objects.drop_last(), x, y)
    }
}

/// The names of the objects of which nothing falls on a `width` by
/// `height` canvas, in drawing order.
pub open spec fn hidden(
    names: Seq<Seq<char>>,
    objects: Seq<ObjectView>,
    width: nat,
    height: nat,
) -> Seq<Seq<char>>
    decreases objects.len(),
{
    if objects.len() == 0 || names.len() == 0 {
        Seq::empty()
    } else {
        let before = hidden(names.drop_last(), objects.drop_last(), width, height);
        if objects.last().visible_on(width, height) {
            before
        } else {
            before.push(names.last())
        }
    }
}

/// Where an object on `layer` joins the drawing order: behind every object
/// that is already there on the same or a lower layer.
pub open spec fn draw_slot(objects: Seq<ObjectView>, layer: usize) -> int
    decreases objects.len(),
{
    if objects.len() == 0 {
        0
    } else if objects.last().layer <= layer {
        objects.len() as int
    } else {
        draw_slot(objects.drop_last(), layer)
    }
}

/// Whether the layers never decrease along `objects`.
pub open spec fn layered(objects: Seq<ObjectView>) -> bool {
    forall|i: int, j: int| 0 <= i < j < objects.len() ==> objects[i].layer <= objects[j].layer
}

/// The mathematical content of a scene: its frame, and its objects with
/// their names, in drawing order.
#[verifier::ext_equal]
pub struct SceneView {
    pub frame: RegionView,
    pub names: Seq<Seq<char>>,
    pub objects: Seq<ObjectView>,
}

impl SceneView {
    /// Every object has one name, no name is used twice, and the objects
    /// stand in drawing order: by layer, and within a layer in the order in
    /// which they were added.
    pub open spec fn wf(self) -> bool {
        &&& self.names.len() == self.objects.len()
        &&& self.names.no_duplicates()
        &&& layered(self.objects)
    }

    /// Whether an object is registered under `name`.
    pub open spec fn has(self, name: Seq<char>) -> bool {
        self.names.contains(name)
    }

    /// The object registered under `name`.
    pub open spec fn object(self, name: Seq<char>) -> ObjectView {
        self.objects[position_of(self.names, name)]
    }

    /// This scene without the object registered under `name`, if there is
    /// one.
    pub open spec fn without(self, name: Seq<char>) -> SceneView {
        if self.has(name) {
            let i = position_of(self.names, name);
            SceneView { names: self.names.remove(i), objects: self.objects.remove(i), ..self }
        } else {
            self
        }
    }

    /// This scene with `object` registered under `name`, in place of any
    /// object that had the name before.
    pub open spec fn with_object(self, name: Seq<char>, object: ObjectView) -> SceneView {
        let rest = self.without(name);
        let slot = draw_slot(rest.objects, object.layer);
        SceneView {
            names: rest.names.insert(slot, name),
            objects: rest.objects.insert(slot, object),
            ..rest
        }
    }

    /// This scene with the object registered under `name` replaced by
    /// `object`, at the same place in the drawing order.
    pub open spec fn with_changed(self, name: Seq<char>, object: ObjectView) -> SceneView {
        SceneView { objects: self.objects.update(position_of(self.names, name), object), ..self }
    }

    /// This scene after a redraw: every cell of the frame shows the
    /// composite of the objects, and nothing else has changed.
    pub open spec fn rendered(self) -> SceneView {
        SceneView {
            frame: RegionView::new(
                self.frame.width,
                self.frame.height,
                |x: int, y: int| composite(self.objects, x, y),
            ),
            ..self
        }
    }

    /// The names of the objects that a redraw skips because nothing of
    /// them falls on the frame.
    pub open spec fn skipped(self) -> Seq<Seq<char>> {
        hidden(self.names, self.objects, self.frame.width, self.frame.height)
    }

    /// Redrawing twice without a change in between gives the same frame as
    /// redrawing once.
    pub proof fn lemma_render_is_idempotent(self)
        ensures
            self.rendered().rendered() == self.rendered(),
    {
    }

    /// The frame keeps its size through a redraw.
    pub proof fn lemma_render_keeps_size(self)
        ensures
            self.rendered().frame.width == self.frame.width,
            self.rendered().frame.height == self.frame.height,
    {
    }

    /// A redraw does not depend on what the frame showed before: two scenes
    /// with the same objects and the same frame size redraw to the same
    /// frame.
    pub proof fn lemma_render_forgets_frame(self, other: SceneView)
        requires
            self.objects == other.objects,
            self.frame.width == other.frame.width,
            self.frame.height == other.frame.height,
        ensures
            self.rendered().frame == other.rendered().frame,
    {
    }

    /// Adding an object keeps a scene well formed, puts the object behind
    /// every object of the same or a lower layer and in front of every
    /// object of a higher one, and registers it under its name.
    pub proof fn lemma_with_object(self, name: Seq<char>, object: ObjectView)
        requires
            self.wf(),
        ensures
            self.with_object(name, object).wf(),
            self.with_object(name, object).has(name),
            self.with_object(name, object).object(name) == object,
            ({
                let after = self.with_object(name, object);
                let at = position_of(after.names, name);
                &&& forall|i: int| 0 <= i < at ==> after.objects[i].layer <= object.layer
                &&& forall|i: int| at < i < after.objects.len() ==> after.objects[i].layer > object.layer
            }),
    {
        let rest = self.without(name);
        lemma_without(self, name);
        let slot = draw_slot(rest.objects, object.layer);
        lemma_draw_slot(rest.objects, object.layer);
        let after = self.with_object(name, object);
        assert(after.names[slot] == name);
        lemma_position(after.names, slot);
    }
}

/// An object of which nothing falls on the canvas shows nowhere on it:
/// drawing it changes no cell.
pub proof fn lemma_unseen_object_changes_nothing(
    objects: Seq<ObjectView>,
    object: ObjectView,
    width: nat,
    height: nat,
    x: int,
    y: int,
)
    requires
        !object.visible_on(width, height),
        0 <= x < width,
        0 <= y < height,
    ensures
        !object.covers(x, y),
        composite(objects.push(object), x, y) == composite(objects, x, y),
{
    assert(objects.push(object).drop_last() =~= objects);
}

/// A scene in which no object falls on the frame redraws to a blank
/// frame.
pub proof fn lemma_nothing_seen_is_blank(objects: Seq<ObjectView>, width: nat, height: nat, x: int, y: int)
    requires
        forall|i: int| 0 <= i < objects.len() ==> !(#[trigger] objects[i]).visible_on(width, height),
        0 <= x < width,
        0 <= y < height,
    ensures
        composite(objects, x, y) == blank_text(),
    decreases objects.len(),
{
    if objects.len() > 0 {
        let front = objects.drop_last();
        assert(!objects[objects.len() - 1].visible_on(width, height));
        assert forall|i: int| 0 <= i < front.len() implies !(#[trigger] front[i]).visible_on(
            width,
            height,
        ) by {
            assert(front[i] == objects[i]);
        }
        lemma_nothing_seen_is_blank(front, width, height, x, y);
    }
}

/// In a sequence without duplicates, an element stands where it is found.
pub proof fn lemma_position(names: Seq<Seq<char>>, i: int)
    requires
        names.no_duplicates(),
        0 <= i < names.len(),
    ensures
        position_of(names, names[i]) == i,
        names.contains(names[i]),
{
}

/// Taking an object out keeps a scene well formed and frees its name.
pub proof fn lemma_without(scene: SceneView, name: Seq<char>)
    requires
        scene.wf(),
    ensures
        scene.without(name).wf(),
        !scene.without(name).has(name),
{
    if scene.has(name) {
        let i = position_of(scene.names, name);
        let rest = scene.without(name);
        assert forall|a: int, b: int| 0 <= a < rest.names.len() && 0 <= b < rest.names.len() && a
            != b implies rest.names[a] != rest.names[b] by {
            let a0 = if a < i { a } else { a + 1 };
            let b0 = if b < i { b } else { b + 1 };
            assert(rest.names[a] == scene.names[a0]);
            assert(rest.names[b] == scene.names[b0]);
        }
        assert forall|a: int, b: int| 0 <= a < b < rest.objects.len() implies rest.objects[a].layer
            <= rest.objects[b].layer by {
            let a0 = if a < i { a } else { a + 1 };
            let b0 = if b < i { b } else { b + 1 };
            assert(rest.objects[a] == scene.objects[a0]);
            assert(rest.objects[b] == scene.objects[b0]);
        }
        assert forall|a: int| 0 <= a < rest.names.len() implies rest.names[a] != name by {
            let a0 = if a < i { a } else { a + 1 };
            assert(rest.names[a] == scene.names[a0]);
        }
    }
}

/// The drawing slot of a layer splits a layered sequence: everything
/// before it is on the same or a lower layer, everything from it on is on
/// a higher one.
pub proof fn lemma_draw_slot(objects: Seq<ObjectView>, layer: usize)
    requires
        layered(objects),
    ensures
        0 <= draw_slot(objects, layer) <= objects.len(),
        forall|i: int| 0 <= i < draw_slot(objects, layer) ==> objects[i].layer <= layer,
        forall|i: int| draw_slot(objects, layer) <= i < objects.len() ==> objects[i].layer > layer,
    decreases objects.len(),
{
    if objects.len() > 0 {
        let last = objects.len() - 1;
        if objects.last().layer > layer {
            let front = objects.drop_last();
            assert forall|i: int, j: int| 0 <= i < j < front.len() implies front[i].layer
                <= front[j].layer by {
                assert(front[i] == objects[i] && front[j] == objects[j]);
            }
            lemma_draw_slot(front, layer);
            assert forall|i: int| 0 <= i < draw_slot(objects, layer) implies objects[i].layer
                <= layer by {
                assert(front[i] == objects[i]);
            }
            assert forall|i: int| draw_slot(objects, layer) <= i < objects.len() implies objects[i].layer
                > layer by {
                if i < last {
                    assert(front[i] == objects[i]);
                }
            }
        } else {
            assert forall|i: int| 0 <= i < draw_slot(objects, layer) implies objects[i].layer
                <= layer by {
                if i < last {
                    assert(objects[i].layer <= objects[last].layer);
                }
            }
        }
    }
}

/// One named object of a scene.
#[derive(Debug)]
struct Entry {
    name: String,
    object: Object,
}

/// The names of `entries`, in order.
spec fn names_of(entries: Seq<Entry>) -> Seq<Seq<char>> {
    Seq::new(entries.len(), |i: int| entries[i].name@)
}

/// The objects of `entries`, in order.
spec fn objects_of(entries: Seq<Entry>) -> Seq<ObjectView> {
    Seq::new(entries.len(), |i: int| entries[i].object@)
}

/// Finds the entry called `name`.
fn position(entries: &Vec<Entry>, name: &str) -> (r: Option<usize>)
    ensures
        match r {
            Some(i) => i < entries@.len() && names_of(entries@)[i as int] == name@,
            None => !names_of(entries@).contains(name@),
        },
{
    let wanted = name.to_owned();
    let mut i: usize = 0;
    while i < entries.len()
        invariant
            i <= entries@.len(),
            wanted@ == name@,
            forall|j: int| 0 <= j < i ==> names_of(entries@)[j] != name@,
        decreases entries@.len() - i,
    {
        if entries[i].name == wanted {
            return Some(i);
        }
        i += 1;
    }
    None
}

/// Finds the drawing slot for a new object on `layer`.
fn slot_for(entries: &Vec<Entry>, layer: usize) -> (slot: usize)
    ensures
        slot == draw_slot(objects_of(entries@), layer),
        slot <= entries@.len(),
{
    let ghost objects = objects_of(entries@);
    let mut slot: usize = entries.len();
    assert(objects.take(slot as int) =~= objects);
    while slot > 0 && entries[slot - 1].object.layer() > layer
        invariant
            slot <= entries@.len(),
            objects == objects_of(entries@),
            draw_slot(objects, layer) == draw_slot(objects.take(slot as int), layer),
        decreases slot,
    {
        assert(objects.take(slot as int).drop_last() =~= objects.take(slot - 1));
        slot -= 1;
    }
    slot
}

/// A frame of fixed size and the named objects that are drawn onto it.
#[derive(Debug)]
pub struct Scene {
    frame: Region,
    entries: Vec<Entry>,
}

impl View for Scene {
    type V = SceneView;

    closed spec fn view(&self) -> SceneView {
        SceneView {
            frame: self.frame@,
            names: names_of(self.entries@),
            objects: objects_of(self.entries@),
        }
    }
}

impl Scene {
    /// No name is used twice, and the objects stand in drawing order.
    #[verifier::type_invariant]
    pub closed spec fn inv(&self) -> bool {
        names_of(self.entries@).no_duplicates() && layered(objects_of(self.entries@))
    }

    /// The content of a scene is well formed.
    pub proof fn lemma_view_wf(&self)
        requires
            self.inv(),
        ensures
            self@.wf(),
    {
    }

    /// A scene without objects whose frame is blank and has the size
    /// `resolution`, or `InvalidDimension` if no frame can be that large.
    pub fn new(resolution: Dimension) -> (r: Result<Scene, EngineError>)
        ensures
            match r {
                Ok(scene) => resolution.fits() && scene@ == (SceneView {
                    frame: RegionView::blank(resolution.x as nat, resolution.y as nat),
                    names: Seq::empty(),
                    objects: Seq::empty(),
                }),
                Err(e) => !resolution.fits() && e == EngineError::InvalidDimension,
            },
    {
        match Region::new(resolution.x, resolution.y) {
            Ok(frame) => {
                let scene = Scene { frame, entries: Vec::new() };
                assert(scene@.names =~= Seq::empty());
                assert(scene@.objects =~= Seq::empty());
                Ok(scene)
            },
            Err(e) => Err(e),
        }
    }

    /// The size of the frame. It never changes.
    pub fn resolution(&self) -> (size: Dimension)
        ensures
            size.x == self@.frame.width,
            size.y == self@.frame.height,
    {
        self.frame.size()
    }

    /// The frame as the last redraw left it.
    pub fn frame(&self) -> (frame: &Region)
        ensures
            frame@ == self@.frame,
    {
        &self.frame
    }

    /// The number of objects.
    pub fn len(&self) -> (n: usize)
        ensures
            n == self@.objects.len(),
    {
        self.entries.len()
    }

    /// Whether an object is registered under `name`.
    pub fn contains(&self, name: &str) -> (found: bool)
        ensures
            found == self@.has(name@),
    {
        position(&self.entries, name).is_some()
    }

    /// The names of the objects, in drawing order.
    pub fn names(&self) -> (names: Vec<String>)
        ensures
            names.deep_view() == self@.names,
    {
        let mut names: Vec<String> = Vec::new();
        let mut i: usize = 0;
        while i < self.entries.len()
            invariant
                i <= self.entries@.len(),
                names@.len() == i,
                names.deep_view() == names_of(self.entries@).take(i as int),
            decreases self.entries@.len() - i,
        {
            names.push(self.entries[i].name.clone());
            assert(names.deep_view() =~= names_of(self.entries@).take(i + 1));
            i += 1;
        }
        assert(names_of(self.entries@).take(i as int) =~= names_of(self.entries@));
        names
    }

    /// The object registered under `name`, or a `Lookup` error if there is
    /// none.
    pub fn object(&self, name: &str) -> (r: Result<&Object, EngineError>)
        ensures
            match r {
                Ok(object) => self@.has(name@) && object@ == self@.object(name@),
                Err(EngineError::Lookup { name: missing }) => !self@.has(name@) && missing@ == name@,
                Err(_) => false,
            },
    {
        proof {
            use_type_invariant(self);
        }
        match position(&self.entries, name) {
            Some(i) => {
                proof {
                    lemma_position(self@.names, i as int);
                }
                Ok(&self.entries[i].object)
            },
            None => Err(EngineError::Lookup { name: name.to_owned() }),
        }
    }

    /// Registers `object` under `name` and returns the object that had the
    /// name before, if there was one. The object is drawn after every
    /// object of the same or a lower layer that is already in the scene.
    pub fn insert(&mut self, name: String, object: Object) -> (previous: Option<Object>)
        ensures
            final(self)@ == old(self)@.with_object(name@, object@),
            match previous {
                Some(replaced) => old(self)@.has(name@) && replaced@ == old(self)@.object(name@),
                None => !old(self)@.has(name@),
            },
    {
        proof {
            use_type_invariant(&*self);
            lemma_without(self@, name@);
        }
        let mut entries: Vec<Entry> = Vec::new();
        std::mem::swap(&mut entries, &mut self.entries);
        let previous = match position(&entries, name.as_str()) {
            Some(i) => {
                proof {
                    lemma_position(old(self)@.names, i as int);
                }
                let taken = entries.remove(i);
                Some(taken.object)
            },
            None => None,
        };
        let ghost rest = old(self)@.without(name@);
        assert(names_of(entries@) =~= rest.names);
        assert(objects_of(entries@) =~= rest.objects);
        let slot = slot_for(&entries, object.layer());
        proof {
            lemma_draw_slot(rest.objects, object@.layer);
        }
        let ghost after = old(self)@.with_object(name@, object@);
        entries.insert(slot, Entry { name, object });
        assert(names_of(entries@) =~= after.names);
        assert(objects_of(entries@) =~= after.objects);
        proof {
            old(self)@.lemma_with_object(name@, object@);
        }
        self.entries = entries;
        previous
    }

    /// Takes the object registered under `name` out of the scene, or
    /// fails with a `Lookup` error if there is none.
    pub fn remove(&mut self, name: &str) -> (r: Result<Object, EngineError>)
        ensures
            match r {
                Ok(object) => old(self)@.has(name@) && object@ == old(self)@.object(name@)
                    && final(self)@ == old(self)@.without(name@),
                Err(EngineError::Lookup { name: missing }) => !old(self)@.has(name@) && missing@ == name@
                    && final(self)@ == old(self)@,
                Err(_) => false,
            },
    {
        proof {
            use_type_invariant(&*self);
            lemma_without(self@, name@);
        }
        match position(&self.entries, name) {
            Some(i) => {
                proof {
                    lemma_position(self@.names, i as int);
                }
                let mut entries: Vec<Entry> = Vec::new();
                std::mem::swap(&mut entries, &mut self.entries);
                let taken = entries.remove(i);
                assert(names_of(entries@) =~= old(self)@.without(name@).names);
                assert(objects_of(entries@) =~= old(self)@.without(name@).objects);
                self.entries = entries;
                Ok(taken.object)
            },
            None => Err(EngineError::Lookup { name: name.to_owned() }),
        }
    }

    /// Adds the default object under `name`: the outline of a
    /// [`DEFAULT_WIDTH`] by [`DEFAULT_HEIGHT`] rectangle.
    pub fn new_object(&mut self, name: String)
        ensures
            final(self)@ == old(self)@.with_object(name@, default_object()),
    {
        assert(DEFAULT_WIDTH * DEFAULT_HEIGHT == 80);
        match rectangle(Dimension { x: DEFAULT_WIDTH, y: DEFAULT_HEIGHT }) {
            Ok(visual) => {
                let _ = self.insert(name, Object::new(visual));
            },
            Err(_) => {
                assert(false);
            },
        }
    }

    /// Moves the object registered under `name` to `placement`, or fails
    /// with a `Lookup` error if there is none.
    pub fn set_placement(&mut self, name: &str, placement: Coordinate) -> (r: Result<(), EngineError>)
        ensures
            match r {
                Ok(()) => old(self)@.has(name@) && final(self)@ == old(self)@.with_changed(
                    name@,
                    ObjectView { placement, ..old(self)@.object(name@) },
                ),
                Err(EngineError::Lookup { name: missing }) => !old(self)@.has(name@) && missing@ == name@
                    && final(self)@ == old(self)@,
                Err(_) => false,
            },
    {
        proof {
            use_type_invariant(&*self);
        }
        match position(&self.entries, name) {
            Some(i) => {
                proof {
                    lemma_position(self@.names, i as int);
                }
                let mut entries: Vec<Entry> = Vec::new();
                std::mem::swap(&mut entries, &mut self.entries);
                let mut entry = entries.remove(i);
                entry.object.set_placement(placement);
                entries.insert(i, entry);
                assert(names_of(entries@) =~= old(self)@.names);
                assert(objects_of(entries@) =~= old(self)@.objects.update(
                    i as int,
                    ObjectView { placement, ..old(self)@.object(name@) },
                ));
                self.entries = entries;
                Ok(())
            },
            None => Err(EngineError::Lookup { name: name.to_owned() }),
        }
    }

    /// Gives the object registered under `name` a new visual, or fails with
    /// a `Lookup` error if there is none.
    pub fn set_visual(&mut self, name: &str, visual: Region) -> (r: Result<(), EngineError>)
        ensures
            match r {
                Ok(()) => old(self)@.has(name@) && final(self)@ == old(self)@.with_changed(
                    name@,
                    ObjectView { visual: visual@, ..old(self)@.object(name@) },
                ),
                Err(EngineError::Lookup { name: missing }) => !old(self)@.has(name@) && missing@ == name@
                    && final(self)@ == old(self)@,
                Err(_) => false,
            },
    {
        proof {
            use_type_invariant(&*self);
        }
        match position(&self.entries, name) {
            Some(i) => {
                proof {
                    lemma_position(self@.names, i as int);
                }
                let mut entries: Vec<Entry> = Vec::new();
                std::mem::swap(&mut entries, &mut self.entries);
                let mut entry = entries.remove(i);
                entry.object.set_visual(visual);
                entries.insert(i, entry);
                assert(names_of(entries@) =~= old(self)@.names);
                assert(objects_of(entries@) =~= old(self)@.objects.update(
                    i as int,
                    ObjectView { visual: visual@, ..old(self)@.object(name@) },
                ));
                self.entries = entries;
                Ok(())
            },
            None => Err(EngineError::Lookup { name: name.to_owned() }),
        }
    }

    /// Redraws the frame: blanks it, then draws every object at its
    /// placement, in drawing order, clipped to the frame. Returns the names
    /// of the objects that were skipped because nothing of them falls on
    /// the frame.
    pub fn render(&mut self) -> (skipped: Vec<String>)
        ensures
            final(self)@ == old(self)@.rendered(),
            skipped.deep_view() == old(self)@.skipped(),
    {
        proof {
            use_type_invariant(&*self);
        }
        self.frame.fill(Char::default());
        let canvas = self.frame.size();
        let ghost names = names_of(self.entries@);
        let ghost objects = objects_of(self.entries@);
        let mut skipped: Vec<String> = Vec::new();
        let mut i: usize = 0;
        assert(skipped.deep_view() =~= Seq::empty());
        while i < self.entries.len()
            invariant
                i <= self.entries@.len(),
                self.inv(),
                self.entries@ == old(self).entries@,
                names == names_of(self.entries@),
                objects == objects_of(self.entries@),
                canvas.x == old(self)@.frame.width,
                canvas.y == old(self)@.frame.height,
                self.frame@.width == canvas.x,
                self.frame@.height == canvas.y,
                forall|x: int, y: int|
                    0 <= x < canvas.x && 0 <= y < canvas.y ==> #[trigger] self.frame@.at(x, y)
                        == composite(objects.take(i as int), x, y),
                skipped.deep_view() == hidden(
                    names.take(i as int),
                    objects.take(i as int),
                    canvas.x as nat,
                    canvas.y as nat,
                ),
            decreases self.entries@.len() - i,
        {
            let ghost before = self.frame@;
            let ghost drawn = objects.take(i + 1);
            let ghost top = objects[i as int];
            assert(drawn.last() == top);
            assert(drawn.drop_last() =~= objects.take(i as int));
            assert(names.take(i + 1).last() == names[i as int]);
            assert(names.take(i + 1).drop_last() =~= names.take(i as int));
            let entry = &self.entries[i];
            let object = &entry.object;
            assert(object@ == top);
            match clip(*object.get_placement(), *object.get_size(), canvas) {
                Some((onto, from)) => {
                    let done = self.frame.assign(onto, object.get_visual(), from);
                    assert(done is Ok);
                    assert forall|x: int, y: int| 0 <= x < canvas.x && 0 <= y < canvas.y implies #[trigger] self.frame@.at(
                        x,
                        y,
                    ) == composite(drawn, x, y) by {
                        assert(onto.contains(x, y) == top.covers(x, y));
                        if !onto.contains(x, y) {
                            assert(self.frame@.at(x, y) == before.at(x, y));
                        }
                    }
                },
                None => {
                    skipped.push(entry.name.clone());
                    assert forall|x: int, y: int| 0 <= x < canvas.x && 0 <= y < canvas.y implies #[trigger] self.frame@.at(
                        x,
                        y,
                    ) == composite(drawn, x, y) by {
                        assert(!top.covers(x, y));
                    }
                },
            }
            assert(skipped.deep_view() =~= hidden(
                names.take(i + 1),
                drawn,
                canvas.x as nat,
                canvas.y as nat,
            ));
            i += 1;
        }
        assert(objects.take(i as int) =~= objects);
        assert(names.take(i as int) =~= names);
        proof {
            use_type_invariant(&self.frame);
            self.frame.lemma_view_wf();
            self.frame@.lemma_same(old(self)@.rendered().frame);
        }
        skipped
    }
}

} // verus!
