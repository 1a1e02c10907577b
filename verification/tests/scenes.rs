use terming::interchange::encode;
use terming::{
    rectangle, Char, Coordinate, Dimension, EngineError, Object, Region, Renderable, Scene,
};

fn lettered(width: usize, height: usize, first: char) -> Region {
    let mut region = Region::new(width, height).unwrap();
    let mut letter = first;
    for y in 0..height {
        for x in 0..width {
            region.set(x, y, Char::from(letter));
            letter = char::from_u32(letter as u32 + 1).unwrap();
        }
    }
    region
}

fn filled(width: usize, height: usize, with: char) -> Region {
    let mut region = Region::new(width, height).unwrap();
    region.fill(Char::from(with));
    region
}

fn placed(visual: Region, x: i32, y: i32, layer: usize) -> Object {
    let mut object = Object::new(visual);
    object.set_placement(Coordinate { x, y });
    object.set_layer(layer);
    object
}

fn shown(scene: &Scene) -> Vec<String> {
    encode(scene.frame()).iter().map(|row| row.concat()).collect()
}

#[test]
fn new_scene_has_a_blank_frame() {
    let scene = Scene::new(Dimension { x: 40, y: 30 }).unwrap();
    assert_eq!(scene.resolution(), Dimension { x: 40, y: 30 });
    assert_eq!(scene.len(), 0);
    assert_eq!(shown(&scene), vec![" ".repeat(40); 30]);
}

#[test]
fn scene_too_large_is_refused() {
    assert_eq!(
        Scene::new(Dimension { x: usize::MAX, y: 2 }).err(),
        Some(EngineError::InvalidDimension)
    );
}

#[test]
fn object_cut_at_the_origin_shows_its_far_corner() {
    let mut scene = Scene::new(Dimension { x: 40, y: 30 }).unwrap();
    scene.insert("tile".to_string(), placed(lettered(4, 4, 'a'), -2, -2, 0));
    let skipped = scene.render();
    assert!(skipped.is_empty());
    let frame = scene.frame();
    assert_eq!(frame.get(0, 0).to_string(), "k");
    assert_eq!(frame.get(1, 0).to_string(), "l");
    assert_eq!(frame.get(0, 1).to_string(), "o");
    assert_eq!(frame.get(1, 1).to_string(), "p");
    for y in 0..30 {
        for x in 0..40 {
            if x >= 2 || y >= 2 {
                assert!(frame.get(x, y).is_blank(), "at ({}, {})", x, y);
            }
        }
    }
}

#[test]
fn object_off_canvas_leaves_the_frame_blank() {
    let mut scene = Scene::new(Dimension { x: 40, y: 30 }).unwrap();
    scene.insert("far".to_string(), placed(lettered(4, 4, 'a'), -100, -100, 0));
    let skipped = scene.render();
    assert_eq!(skipped, vec!["far".to_string()]);
    assert_eq!(shown(&scene), vec![" ".repeat(40); 30]);
}

#[test]
fn object_touching_the_edge_from_outside_is_skipped() {
    let mut scene = Scene::new(Dimension { x: 6, y: 4 }).unwrap();
    scene.insert("left".to_string(), placed(filled(2, 2, 'L'), -2, 0, 0));
    scene.insert("right".to_string(), placed(filled(2, 2, 'R'), 6, 0, 0));
    scene.insert("below".to_string(), placed(filled(2, 2, 'B'), 0, 4, 0));
    scene.insert("seen".to_string(), placed(filled(1, 1, 'S'), 5, 3, 0));
    let skipped = scene.render();
    assert_eq!(skipped, vec!["left".to_string(), "right".to_string(), "below".to_string()]);
    assert_eq!(shown(&scene), vec!["      ", "      ", "      ", "     S"]);
}

#[test]
fn rendering_twice_gives_the_same_frame() {
    let mut scene = Scene::new(Dimension { x: 40, y: 30 }).unwrap();
    scene.new_object("Cube".to_string());
    scene.insert("tile".to_string(), placed(lettered(4, 4, 'a'), 37, 28, 1));
    scene.render();
    let first = scene.frame().clone();
    scene.render();
    assert_eq!(*scene.frame(), first);
    assert_eq!(encode(scene.frame()), encode(&first));
}

#[test]
fn object_past_the_far_edge_is_cut_there() {
    let mut scene = Scene::new(Dimension { x: 6, y: 4 }).unwrap();
    scene.insert("tile".to_string(), placed(lettered(4, 4, 'a'), 4, 2, 0));
    let skipped = scene.render();
    assert!(skipped.is_empty());
    assert_eq!(shown(&scene), vec!["      ", "      ", "    ab", "    ef"]);
}

#[test]
fn object_larger_than_the_frame_is_cut_on_all_sides() {
    let mut scene = Scene::new(Dimension { x: 2, y: 2 }).unwrap();
    scene.insert("big".to_string(), placed(lettered(5, 5, 'a'), -1, -2, 0));
    scene.render();
    assert_eq!(shown(&scene), vec!["lm", "qr"]);
}

#[test]
fn default_object_is_an_outline_at_eight_eight() {
    let mut scene = Scene::new(Dimension { x: 20, y: 18 }).unwrap();
    scene.new_object("Cube".to_string());
    assert_eq!(scene.len(), 1);
    let object = scene.object("Cube").unwrap();
    assert_eq!(*object.get_placement(), Coordinate { x: 8, y: 8 });
    assert_eq!(*object.get_size(), Dimension { x: 10, y: 8 });
    assert_eq!(object.layer(), 0);
    scene.render();
    let mut expected = vec![" ".repeat(20); 18];
    expected[8] = format!("{}{}{}", " ".repeat(8), "X".repeat(10), " ".repeat(2));
    for y in 9..15 {
        expected[y] = format!("{}X{}X{}", " ".repeat(8), " ".repeat(8), " ".repeat(2));
    }
    expected[15] = format!("{}{}{}", " ".repeat(8), "X".repeat(10), " ".repeat(2));
    assert_eq!(shown(&scene), expected);
}

#[test]
fn blank_cells_of_a_visual_cover_what_is_below() {
    let mut scene = Scene::new(Dimension { x: 4, y: 3 }).unwrap();
    scene.insert("back".to_string(), placed(filled(4, 3, '#'), 0, 0, 0));
    scene.insert("front".to_string(), placed(rectangle(Dimension { x: 3, y: 3 }).unwrap(), 0, 0, 0));
    scene.render();
    assert_eq!(shown(&scene), vec!["XXX#", "X X#", "XXX#"]);
}

#[test]
fn later_object_on_the_same_layer_is_drawn_on_top() {
    let mut scene = Scene::new(Dimension { x: 4, y: 1 }).unwrap();
    scene.insert("first".to_string(), placed(filled(3, 1, '1'), 0, 0, 0));
    scene.insert("second".to_string(), placed(filled(3, 1, '2'), 1, 0, 0));
    assert_eq!(scene.names(), vec!["first".to_string(), "second".to_string()]);
    scene.render();
    assert_eq!(shown(&scene), vec!["1222"]);
}

#[test]
fn higher_layer_is_drawn_on_top_whatever_the_order() {
    let mut scene = Scene::new(Dimension { x: 4, y: 1 }).unwrap();
    scene.insert("high".to_string(), placed(filled(3, 1, 'H'), 0, 0, 5));
    scene.insert("low".to_string(), placed(filled(3, 1, 'L'), 1, 0, 1));
    scene.insert("mid".to_string(), placed(filled(1, 1, 'M'), 2, 0, 3));
    scene.insert("low2".to_string(), placed(filled(1, 1, 'l'), 3, 0, 1));
    assert_eq!(
        scene.names(),
        vec!["low".to_string(), "low2".to_string(), "mid".to_string(), "high".to_string()]
    );
    scene.render();
    assert_eq!(shown(&scene), vec!["HHHl"]);
}

#[test]
fn inserting_under_a_used_name_replaces_the_object() {
    let mut scene = Scene::new(Dimension { x: 3, y: 1 }).unwrap();
    assert!(scene.insert("a".to_string(), placed(filled(1, 1, 'a'), 0, 0, 0)).is_none());
    assert!(scene.insert("b".to_string(), placed(filled(1, 1, 'b'), 0, 0, 0)).is_none());
    let replaced = scene.insert("a".to_string(), placed(filled(1, 1, 'A'), 0, 0, 0)).unwrap();
    assert_eq!(replaced.get_visual().get(0, 0).to_string(), "a");
    assert_eq!(scene.len(), 2);
    assert_eq!(scene.names(), vec!["b".to_string(), "a".to_string()]);
    scene.render();
    assert_eq!(shown(&scene), vec!["A  "]);
}

#[test]
fn removed_object_leaves_no_residue() {
    let mut scene = Scene::new(Dimension { x: 3, y: 2 }).unwrap();
    scene.insert("a".to_string(), placed(filled(2, 2, 'a'), 1, 0, 0));
    scene.render();
    assert_eq!(shown(&scene), vec![" aa", " aa"]);
    let removed = scene.remove("a").unwrap();
    assert_eq!(*removed.get_placement(), Coordinate { x: 1, y: 0 });
    assert_eq!(scene.len(), 0);
    assert!(!scene.contains("a"));
    scene.render();
    assert_eq!(shown(&scene), vec!["   ", "   "]);
}

#[test]
fn moved_object_leaves_no_residue() {
    let mut scene = Scene::new(Dimension { x: 4, y: 2 }).unwrap();
    scene.insert("a".to_string(), placed(filled(2, 1, 'a'), 0, 0, 0));
    scene.render();
    assert_eq!(shown(&scene), vec!["aa  ", "    "]);
    assert_eq!(scene.set_placement("a", Coordinate { x: 3, y: 1 }), Ok(()));
    scene.render();
    assert_eq!(shown(&scene), vec!["    ", "   a"]);
}

#[test]
fn new_visual_changes_the_size_with_it() {
    let mut scene = Scene::new(Dimension { x: 4, y: 2 }).unwrap();
    scene.insert("a".to_string(), placed(filled(2, 1, 'a'), 0, 0, 0));
    assert_eq!(scene.set_visual("a", filled(3, 2, 'b')), Ok(()));
    assert_eq!(*scene.object("a").unwrap().get_size(), Dimension { x: 3, y: 2 });
    scene.render();
    assert_eq!(shown(&scene), vec!["bbb ", "bbb "]);
}

#[test]
fn unknown_names_are_lookup_errors() {
    let mut scene = Scene::new(Dimension { x: 4, y: 2 }).unwrap();
    let missing = || Some(EngineError::Lookup { name: "ghost".to_string() });
    assert_eq!(scene.object("ghost").err(), missing());
    assert_eq!(scene.remove("ghost").err(), missing());
    assert_eq!(scene.set_placement("ghost", Coordinate { x: 0, y: 0 }).err(), missing());
    assert_eq!(scene.set_visual("ghost", filled(1, 1, 'g')).err(), missing());
    assert!(!scene.contains("ghost"));
}

#[test]
fn frame_keeps_its_size() {
    let mut scene = Scene::new(Dimension { x: 7, y: 5 }).unwrap();
    scene.new_object("Cube".to_string());
    scene.render();
    scene.remove("Cube").unwrap();
    scene.render();
    assert_eq!(scene.resolution(), Dimension { x: 7, y: 5 });
    assert_eq!(scene.frame().width(), 7);
    assert_eq!(scene.frame().height(), 5);
}

#[test]
fn object_keeps_size_and_visual_together() {
    let mut object = Object::new(filled(3, 2, 'a'));
    assert_eq!(*object.get_size(), Dimension { x: 3, y: 2 });
    assert_eq!(*object.get_placement(), Coordinate { x: 8, y: 8 });
    assert_eq!(object.layer(), 0);
    object.set_visual(filled(5, 7, 'b'));
    assert_eq!(*object.get_size(), Dimension { x: 5, y: 7 });
    assert_eq!(object.get_visual().width(), 5);
    assert_eq!(object.get_visual().height(), 7);
    assert_eq!(*object.get_placement(), Coordinate { x: 8, y: 8 });
    object.set_placement(Coordinate { x: -1, y: 4 });
    assert_eq!(*object.get_placement(), Coordinate { x: -1, y: 4 });
    assert_eq!(*object.get_size(), Dimension { x: 5, y: 7 });
    object.set_layer(9);
    assert_eq!(object.layer(), 9);
}
