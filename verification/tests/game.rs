use terming::game::{App, TestGame};

#[test]
fn lib_it_works() {
    let mut game = TestGame::new(3);
    let result = game.add(2, 2);
    assert_eq!(result, 7);
}
