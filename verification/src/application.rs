use crate::cell::blank_text;
use crate::error::EngineError;
use crate::geometry::Dimension;
use crate::region::{Region, RegionView};
use crate::scene::{lemma_position, position_of, Scene, SceneView};
use vstd::prelude::*;
use vstd::string::StringExecFns;

verus! {

/// The number of milliseconds in a second.
pub const MILLIS_PER_SECOND: u64 = 1000;

/// The name of the scene that a new application shows.
pub open spec fn default_scene_name() -> Seq<char> {
    "test_scene"@
}

/// What is printed for a blank cell.
pub open spec fn placeholder_text() -> Seq<char> {
    seq!['.']
}

/// What is printed after every cell.
pub open spec fn separator_text() -> Seq<char> {
    seq![' ']
}

/// What is printed for a cell that holds `text`: the text itself, or the
/// placeholder if the cell is blank.
pub open spec fn shown(text: Seq<char>) -> Seq<char> {
    if text == blank_text() {
        placeholder_text()
    } else {
        text
    }
}

/// The first `upto` cells of row `y`, each followed by the separator.
pub open spec fn row_text(frame: RegionView, y: int, upto: int) -> Seq<char>
    decreases upto,
{
    if upto <= 0 {
        Seq::empty()
    } else {
        row_text(frame, y, upto - 1) + shown(frame.at(upto - 1, y)) + separator_text()
    }
}

/// The rows of `frame` from top to bottom, each as one line of text.
pub open spec fn frame_lines(frame: RegionView) -> Seq<Seq<char>> {
    Seq::new(frame.height, |y: int| row_text(frame, y, frame.width as int))
}

/// Writes `frame` out row by row: one line for each row, top to bottom,
/// and in each line the cells from left to right, each followed by a
/// space. A blank cell is written as a full stop.
pub fn lines(frame: &Region) -> (lines: Vec<String>)
    ensures
        lines.deep_view() == frame_lines(frame@),
{
    let width = frame.width();
    let height = frame.height();
    let mut lines: Vec<String> = Vec::new();
    let mut y: usize = 0;
    while y < height
        invariant
            y <= height,
            width == frame@.width,
            height == frame@.height,
            lines@.len() == y,
            forall|j: int| 0 <= j < y ==> (#[trigger] lines@[j])@ == row_text(frame@, j, width as int),
        decreases height - y,
    {
        let mut line = String::new();
        let mut x: usize = 0;
        while x < width
            invariant
                x <= width,
                y < height,
                width == frame@.width,
                height == frame@.height,
                line@ == row_text(frame@, y as int, x as int),
            decreases width - x,
        {
            let cell = frame.get(x, y);
            proof {
                reveal_strlit(".");
                reveal_strlit(" ");
                assert("."@ =~= placeholder_text());
                assert(" "@ =~= separator_text());
            }
            if cell.is_blank() {
                line.append(".");
            } else {
                line.append(cell.text());
            }
            line.append(" ");
            x += 1;
        }
        lines.push(line);
        y += 1;
    }
    assert(lines.deep_view() =~= frame_lines(frame@));
    lines
}

/// What one step of the redraw loop asks of its driver.
#[derive(Debug, PartialEq, Eq)]
pub enum Tick {
    /// The loop was asked to stop. Nothing was drawn.
    Stop,
    /// A frame was drawn. The driver prints `lines`, waits for `wait`
    /// milliseconds, and clears the output before the next step.
    Frame { lines: Vec<String>, wait: u64 },
}

/// The texts of `names`, in order.
spec fn texts_of(names: Seq<String>) -> Seq<Seq<char>> {
    Seq::new(names.len(), |i: int| names[i]@)
}

/// The contents of `scenes`, in order.
spec fn views_of(scenes: Seq<Scene>) -> Seq<SceneView> {
    Seq::new(scenes.len(), |i: int| scenes[i]@)
}

/// Finds `name` among `names`.
fn position(names: &Vec<String>, name: &String) -> (r: Option<usize>)
    ensures
        match r {
            Some(i) => i < names@.len() && texts_of(names@)[i as int] == name@,
            None => !texts_of(names@).contains(name@),
        },
{
    let mut i: usize = 0;
    while i < names.len()
        invariant
            i <= names@.len(),
            forall|j: int| 0 <= j < i ==> texts_of(names@)[j] != name@,
        decreases names@.len() - i,
    {
        if names[i] == *name {
            return Some(i);
        }
        i += 1;
    }
    None
}

/// Whether an application can be made to redraw `framerate` times a second
/// at `resolution`: the rate and both sides of the resolution are at least
/// one, a frame takes at least a millisecond, and a frame of that size can
/// be held.
pub open spec fn settings_ok(framerate: usize, resolution: Dimension) -> bool {
    &&& 1 <= framerate <= MILLIS_PER_SECOND
    &&& resolution.x >= 1
    &&& resolution.y >= 1
    &&& resolution.fits()
}

/// The mathematical content of an application: its scenes with their
/// names, the name of the scene it shows, the time between two frames in
/// milliseconds, and the resolution of the scenes it makes.
#[verifier::ext_equal]
pub struct AppView {
    pub names: Seq<Seq<char>>,
    pub scenes: Seq<SceneView>,
    pub current_scene: Seq<char>,
    pub frametime: u64,
    pub resolution: Dimension,
}

impl AppView {
    /// Every scene has one name and no name is used twice.
    pub open spec fn wf(self) -> bool {
        &&& self.names.len() == self.scenes.len()
        &&& self.names.no_duplicates()
        &&& self.frametime >= 1
    }

    /// Whether a scene is registered under `name`.
    pub open spec fn has(self, name: Seq<char>) -> bool {
        self.names.contains(name)
    }

    /// The scene registered under `name`.
    pub open spec fn scene(self, name: Seq<char>) -> SceneView {
        self.scenes[position_of(self.names, name)]
    }

    /// This application with `scene` registered under `name`, in place of
    /// any scene that had the name before.
    pub open spec fn with_scene(self, name: Seq<char>, scene: SceneView) -> AppView {
        if self.has(name) {
            AppView { scenes: self.scenes.update(position_of(self.names, name), scene), ..self }
        } else {
            AppView { names: self.names.push(name), scenes: self.scenes.push(scene), ..self }
        }
    }

    /// This application after its current scene has been redrawn.
    pub open spec fn displayed(self) -> AppView {
        self.with_scene(self.current_scene, self.scene(self.current_scene).rendered())
    }

    /// The lines that show the current scene once it has been redrawn.
    pub open spec fn display_lines(self) -> Seq<Seq<char>> {
        frame_lines(self.scene(self.current_scene).rendered().frame)
    }
}

/// Named scenes, one of which is shown, and the pace at which it is
/// redrawn.
#[derive(Debug)]
pub struct App {
    names: Vec<String>,
    scenes: Vec<Scene>,
    current_scene: String,
    frametime: u64,
    resolution: Dimension,
}

impl View for App {
    type V = AppView;

    closed spec fn view(&self) -> AppView {
        AppView {
            names: texts_of(self.names@),
            scenes: views_of(self.scenes@),
            current_scene: self.current_scene@,
            frametime: self.frametime,
            resolution: self.resolution,
        }
    }
}

impl App {
    /// No name is used twice, a frame takes at least a millisecond, and a
    /// frame of the application's resolution can be held.
    #[verifier::type_invariant]
    pub closed spec fn inv(&self) -> bool {
        &&& self.names@.len() == self.scenes@.len()
        &&& texts_of(self.names@).no_duplicates()
        &&& self.frametime >= 1
        &&& self.resolution.fits()
    }

    /// The content of an application is well formed.
    pub proof fn lemma_view_wf(&self)
        requires
            self.inv(),
        ensures
            self@.wf(),
            self@.resolution.fits(),
    {
    }

    /// An application without scenes that redraws `framerate` times a
    /// second and makes scenes of size `resolution`. It shows the scene
    /// called `test_scene`.
    ///
    /// Fails with `InvalidDimension` exactly when the rate is zero or above
    /// a thousand, a side of the resolution is zero, or the resolution is
    /// too large for a frame.
    pub fn new(framerate: usize, resolution: Dimension) -> (r: Result<App, EngineError>)
        ensures
            match r {
                Ok(app) => settings_ok(framerate, resolution) && app@ == (AppView {
                    names: Seq::empty(),
                    scenes: Seq::empty(),
                    current_scene: default_scene_name(),
                    frametime: (MILLIS_PER_SECOND / framerate as u64) as u64,
                    resolution,
                }),
                Err(e) => !settings_ok(framerate, resolution) && e == EngineError::InvalidDimension,
            },
    {
        if framerate == 0 || framerate > MILLIS_PER_SECOND as usize || resolution.x == 0
            || resolution.y == 0
            || !resolution.is_allocatable() {
            return Err(EngineError::InvalidDimension);
        }
        assert(MILLIS_PER_SECOND as int / framerate as int >= 1) by (nonlinear_arith)
            requires
                1 <= framerate <= MILLIS_PER_SECOND,
                MILLIS_PER_SECOND == 1000,
        ;
        let app = App {
            names: Vec::new(),
            scenes: Vec::new(),
            current_scene: String::from_str("test_scene"),
            frametime: MILLIS_PER_SECOND / (framerate as u64),
            resolution,
        };
        assert(app@.names =~= Seq::empty());
        assert(app@.scenes =~= Seq::empty());
        Ok(app)
    }

    /// The time between two frames, in milliseconds.
    pub fn frametime(&self) -> (millis: u64)
        ensures
            millis == self@.frametime,
            millis >= 1,
    {
        proof {
            use_type_invariant(self);
        }
        self.frametime
    }

    /// The size of the scenes that this application makes.
    pub fn resolution(&self) -> (size: Dimension)
        ensures
            size == self@.resolution,
    {
        self.resolution
    }

    /// The name of the scene that is shown.
    pub fn current_scene(&self) -> (name: &str)
        ensures
            name@ == self@.current_scene,
    {
        self.current_scene.as_str()
    }

    /// Makes `name` the scene that is shown, or fails with a `Lookup`
    /// error if there is no such scene.
    pub fn set_current_scene(&mut self, name: &str) -> (r: Result<(), EngineError>)
        ensures
            match r {
                Ok(()) => old(self)@.has(name@) && final(self)@ == (AppView {
                    current_scene: name@,
                    ..old(self)@
                }),
                Err(EngineError::Lookup { name: missing }) => !old(self)@.has(name@) && missing@ == name@
                    && final(self)@ == old(self)@,
                Err(_) => false,
            },
    {
        proof {
            use_type_invariant(&*self);
        }
        let wanted = name.to_owned();
        match position(&self.names, &wanted) {
            Some(_) => {
                self.current_scene = wanted;
                Ok(())
            },
            None => Err(EngineError::Lookup { name: wanted }),
        }
    }

    /// Registers a new, empty scene of the application's resolution under
    /// `name`, in place of any scene that had the name before.
    pub fn new_scene(&mut self, name: String)
        ensures
            final(self)@ == old(self)@.with_scene(
                name@,
                SceneView {
                    frame: RegionView::blank(
                        old(self)@.resolution.x as nat,
                        old(self)@.resolution.y as nat,
                    ),
                    names: Seq::empty(),
                    objects: Seq::empty(),
                },
            ),
    {
        proof {
            use_type_invariant(&*self);
        }
        match Scene::new(self.resolution) {
            Ok(scene) => {
                let ghost after = old(self)@.with_scene(name@, scene@);
                let mut taken = App {
                    names: Vec::new(),
                    scenes: Vec::new(),
                    current_scene: String::new(),
                    frametime: 1,
                    resolution: self.resolution,
                };
                std::mem::swap(self, &mut taken);
                let App { mut names, mut scenes, current_scene, frametime, resolution } = taken;
                match position(&names, &name) {
                    Some(i) => {
                        proof {
                            lemma_position(old(self)@.names, i as int);
                        }
                        scenes.set(i, scene);
                    },
                    None => {
                        names.push(name);
                        scenes.push(scene);
                    },
                }
                assert(texts_of(names@) =~= after.names);
                assert(views_of(scenes@) =~= after.scenes);
                *self = App { names, scenes, current_scene, frametime, resolution };
            },
            Err(_) => {
                assert(false);
            },
        }
    }

    /// The scene registered under `name`, for changing it, or a `Lookup`
    /// error if there is none.
    pub fn scene(&mut self, name: &str) -> (r: Result<&mut Scene, EngineError>)
        ensures
            match r {
                Ok(scene) => old(self)@.has(name@) && scene@ == old(self)@.scene(name@)
                    && final(self)@ == old(self)@.with_scene(name@, final(scene)@),
                Err(EngineError::Lookup { name: missing }) => !old(self)@.has(name@) && missing@ == name@
                    && final(self)@ == old(self)@,
                Err(_) => false,
            },
    {
        proof {
            use_type_invariant(&*self);
        }
        let wanted = name.to_owned();
        match position(&self.names, &wanted) {
            Some(i) => {
                proof {
                    lemma_position(self@.names, i as int);
                }
                Ok(&mut self.scenes[i])
            },
            None => Err(EngineError::Lookup { name: wanted }),
        }
    }

    /// Redraws the current scene and returns its frame as lines of text,
    /// or fails with a `Lookup` error if the current scene does not exist.
    pub fn display(&mut self) -> (r: Result<Vec<String>, EngineError>)
        ensures
            match r {
                Ok(lines) => old(self)@.has(old(self)@.current_scene) && final(self)@ == old(
                    self,
                )@.displayed() && lines.deep_view() == old(self)@.display_lines(),
                Err(EngineError::Lookup { name: missing }) => !old(self)@.has(old(self)@.current_scene)
                    && missing@ == old(self)@.current_scene && final(self)@ == old(self)@,
                Err(_) => false,
            },
    {
        proof {
            use_type_invariant(&*self);
        }
        match position(&self.names, &self.current_scene) {
            Some(i) => {
                proof {
                    lemma_position(self@.names, i as int);
                }
                let scene = &mut self.scenes[i];
                let _ = scene.render();
                let shown = lines(scene.frame());
                assert(views_of(self.scenes@) =~= old(self)@.displayed().scenes);
                Ok(shown)
            },
            None => Err(EngineError::Lookup { name: self.current_scene.clone() }),
        }
    }

    /// One step of the redraw loop. If `stop` is set nothing happens and
    /// the answer is [`Tick::Stop`]; otherwise the current scene is redrawn
    /// and the answer holds its lines and the time to wait before the next
    /// step.
    pub fn tick(&mut self, stop: bool) -> (r: Result<Tick, EngineError>)
        ensures
            stop ==> r == Ok::<Tick, EngineError>(Tick::Stop) && final(self)@ == old(self)@,
            !stop ==> match r {
                Ok(Tick::Frame { lines, wait }) => old(self)@.has(old(self)@.current_scene)
                    && final(self)@ == old(self)@.displayed() && lines.deep_view() == old(
                    self,
                )@.display_lines() && wait == old(self)@.frametime,
                Ok(Tick::Stop) => false,
                Err(EngineError::Lookup { name: missing }) => !old(self)@.has(old(self)@.current_scene)
                    && missing@ == old(self)@.current_scene && final(self)@ == old(self)@,
                Err(_) => false,
            },
    {
        if stop {
            return Ok(Tick::Stop);
        }
        let wait = self.frametime;
        match self.display() {
            Ok(lines) => Ok(Tick::Frame { lines, wait }),
            Err(e) => Err(e),
        }
    }
}

} // verus!
