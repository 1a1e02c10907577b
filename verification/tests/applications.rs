use terming::application::{lines, App, Tick};
use terming::{Char, Coordinate, Dimension, EngineError, Object, Region, Renderable};

#[test]
fn it_works() {
    let mut test_game = App::new(1, Dimension { x: 40, y: 30 }).unwrap();

    test_game.new_scene("test_scene".into());

    test_game.scene("test_scene").unwrap().new_object("Cube".to_owned());

    let tick = test_game.tick(false).unwrap();
    match tick {
        Tick::Frame { lines, wait } => {
            assert_eq!(wait, 1000);
            assert_eq!(lines.len(), 30);
            assert_eq!(lines[0], ". ".repeat(40));
            assert_eq!(lines[8], format!("{}{}{}", ". ".repeat(8), "X ".repeat(10), ". ".repeat(22)));
            assert_eq!(
                lines[9],
                format!("{}X {}X {}", ". ".repeat(8), ". ".repeat(8), ". ".repeat(22))
            );
            assert_eq!(lines[15], lines[8]);
            assert_eq!(lines[16], lines[0]);
        }
        Tick::Stop => panic!("the loop was not asked to stop"),
    }
    assert_eq!(test_game.tick(true), Ok(Tick::Stop));
}

#[test]
fn frame_time_is_a_second_divided_by_the_rate() {
    let resolution = Dimension { x: 4, y: 2 };
    assert_eq!(App::new(1, resolution).unwrap().frametime(), 1000);
    assert_eq!(App::new(3, resolution).unwrap().frametime(), 333);
    assert_eq!(App::new(60, resolution).unwrap().frametime(), 16);
    assert_eq!(App::new(1000, resolution).unwrap().frametime(), 1);
}

#[test]
fn impossible_rates_and_sizes_are_refused() {
    let resolution = Dimension { x: 4, y: 2 };
    assert_eq!(App::new(0, resolution).err(), Some(EngineError::InvalidDimension));
    assert_eq!(App::new(1001, resolution).err(), Some(EngineError::InvalidDimension));
    assert_eq!(App::new(usize::MAX, resolution).err(), Some(EngineError::InvalidDimension));
    assert_eq!(App::new(1, Dimension { x: 0, y: 2 }).err(), Some(EngineError::InvalidDimension));
    assert_eq!(App::new(1, Dimension { x: 4, y: 0 }).err(), Some(EngineError::InvalidDimension));
    assert_eq!(
        App::new(1, Dimension { x: usize::MAX, y: usize::MAX }).err(),
        Some(EngineError::InvalidDimension)
    );
}

#[test]
fn new_application_shows_the_test_scene() {
    let app = App::new(30, Dimension { x: 4, y: 2 }).unwrap();
    assert_eq!(app.current_scene(), "test_scene");
    assert_eq!(app.resolution(), Dimension { x: 4, y: 2 });
}

#[test]
fn display_without_the_current_scene_is_a_lookup_error() {
    let mut app = App::new(30, Dimension { x: 4, y: 2 }).unwrap();
    let missing = || Some(EngineError::Lookup { name: "test_scene".to_string() });
    assert_eq!(app.display().err(), missing());
    assert_eq!(app.tick(false).err(), missing());
    assert_eq!(app.tick(true), Ok(Tick::Stop));
    app.new_scene("other".to_string());
    assert_eq!(app.display().err(), missing());
}

#[test]
fn unknown_scene_is_a_lookup_error() {
    let mut app = App::new(30, Dimension { x: 4, y: 2 }).unwrap();
    app.new_scene("known".to_string());
    assert!(app.scene("known").is_ok());
    assert_eq!(
        app.scene("unknown").err(),
        Some(EngineError::Lookup { name: "unknown".to_string() })
    );
    assert_eq!(
        app.set_current_scene("unknown"),
        Err(EngineError::Lookup { name: "unknown".to_string() })
    );
    assert_eq!(app.current_scene(), "test_scene");
}

#[test]
fn display_writes_rows_with_separators_and_placeholders() {
    let mut app = App::new(30, Dimension { x: 4, y: 3 }).unwrap();
    app.new_scene("test_scene".to_string());
    let mut visual = Region::new(2, 2).unwrap();
    visual.set(0, 0, Char::from('a'));
    visual.set(1, 0, Char::from('b'));
    visual.set(0, 1, Char::from('c'));
    let mut object = Object::new(visual);
    object.set_placement(Coordinate { x: 1, y: 1 });
    app.scene("test_scene").unwrap().insert("o".to_string(), object);
    let shown = app.display().unwrap();
    assert_eq!(shown, vec![". . . . ", ". a b . ", ". c . . "]);
}

#[test]
fn selected_scene_is_the_one_displayed() {
    let mut app = App::new(30, Dimension { x: 2, y: 1 }).unwrap();
    app.new_scene("first".to_string());
    app.new_scene("second".to_string());
    let mut dot = Region::new(1, 1).unwrap();
    dot.fill(Char::from('2'));
    let mut object = Object::new(dot);
    object.set_placement(Coordinate { x: 0, y: 0 });
    app.scene("second").unwrap().insert("dot".to_string(), object);
    assert_eq!(app.set_current_scene("first"), Ok(()));
    assert_eq!(app.display().unwrap(), vec![". . "]);
    assert_eq!(app.set_current_scene("second"), Ok(()));
    assert_eq!(app.current_scene(), "second");
    assert_eq!(app.display().unwrap(), vec!["2 . "]);
}

#[test]
fn making_a_scene_again_replaces_it() {
    let mut app = App::new(30, Dimension { x: 12, y: 9 }).unwrap();
    app.new_scene("test_scene".to_string());
    app.scene("test_scene").unwrap().new_object("Cube".to_string());
    assert_eq!(app.scene("test_scene").unwrap().len(), 1);
    app.new_scene("test_scene".to_string());
    assert_eq!(app.scene("test_scene").unwrap().len(), 0);
    assert_eq!(app.scene("test_scene").unwrap().resolution(), Dimension { x: 12, y: 9 });
}

#[test]
fn ticks_repeat_the_same_frame_until_something_moves() {
    let mut app = App::new(50, Dimension { x: 3, y: 1 }).unwrap();
    app.new_scene("test_scene".to_string());
    let mut dot = Region::new(1, 1).unwrap();
    dot.fill(Char::from('o'));
    let mut object = Object::new(dot);
    object.set_placement(Coordinate { x: 0, y: 0 });
    app.scene("test_scene").unwrap().insert("dot".to_string(), object);
    let frame = |text: &str| Ok(Tick::Frame { lines: vec![text.to_string()], wait: 20 });
    assert_eq!(app.tick(false), frame("o . . "));
    assert_eq!(app.tick(false), frame("o . . "));
    let moved = app.scene("test_scene").unwrap().set_placement("dot", Coordinate { x: 2, y: 0 });
    assert_eq!(moved, Ok(()));
    assert_eq!(app.tick(false), frame(". . o "));
}

#[test]
fn lines_of_an_empty_frame() {
    assert_eq!(lines(&Region::new(0, 0).unwrap()), Vec::<String>::new());
    assert_eq!(lines(&Region::new(0, 2).unwrap()), vec![String::new(), String::new()]);
    assert_eq!(lines(&Region::new(2, 0).unwrap()), Vec::<String>::new());
}
