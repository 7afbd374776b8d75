use fibonacci_spiral::coord::Coord;
use fibonacci_spiral::game::{Game, GameConf, Key, State, START_SIZE, SIZE_LIMIT, FULL_TURN};
use fibonacci_spiral::style::Style;

fn game() -> Game {
    Game::new(GameConf::new(Coord::new(2400, 1800)), Style::default())
}

#[test]
fn conf_centers_window() {
    let conf = GameConf::new(Coord::new(2400, 1800));
    assert_eq!(conf.window_center, Coord::new(1200, 900));
}

#[test]
fn starts_zooming_at_smallest_size() {
    let g = game();
    assert_eq!(g.starting_size, 10_000);
    assert_eq!(g.delta_theta, 0);
    assert_eq!(g.state, State::Zooming);
    assert!(!g.paused);
}

#[test]
fn zoom_grows_by_five_percent_and_wraps() {
    let mut g = game();
    g.update();
    assert_eq!(g.starting_size, 10_500);
    g.update();
    assert_eq!(g.starting_size, 11_025);
    let mut wrapped = false;
    for _ in 0..200 {
        let before = g.starting_size;
        g.update();
        let grown = before * 105 / 100;
        if grown >= SIZE_LIMIT {
            assert_eq!(g.starting_size, START_SIZE);
            wrapped = true;
            break;
        }
        assert_eq!(g.starting_size, grown);
    }
    assert!(wrapped);
    g.update();
    assert_eq!(g.starting_size, 10_500);
}

#[test]
fn pause_stops_time() {
    let mut g = game();
    g.update();
    g.toggle_pause();
    g.update();
    assert_eq!(g.starting_size, 10_500);
    g.toggle_pause();
    g.update();
    assert_eq!(g.starting_size, 11_025);
}

#[test]
fn rotation_advances_and_wraps() {
    let mut g = game();
    g.state.swap();
    g.update();
    assert_eq!(g.delta_theta, 10_000);
    assert_eq!(g.starting_size, 10_000);
    for _ in 0..627 {
        g.update();
    }
    assert_eq!(g.delta_theta, 6_280_000);
    assert!(g.delta_theta < FULL_TURN);
    g.update();
    assert_eq!(g.delta_theta, 0);
}

#[test]
fn swapping_twice_keeps_everything() {
    let mut g = game();
    g.update();
    g.state.swap();
    g.update();
    let (size, theta) = (g.starting_size, g.delta_theta);
    g.state.swap();
    g.state.swap();
    assert_eq!(g.state, State::Rotating);
    assert_eq!((g.starting_size, g.delta_theta), (size, theta));
    g.state.swap();
    assert_eq!(g.state, State::Zooming);
    assert_eq!((g.starting_size, g.delta_theta), (size, theta));
}

#[test]
fn keys_drive_the_animation() {
    let mut g = game();
    assert!(g.key_down_event(Key::Escape));
    assert!(g.key_down_event(Key::Q));
    assert!(!g.key_down_event(Key::Space));
    assert_eq!(g.state, State::Rotating);
    assert!(!g.key_down_event(Key::S));
    assert_eq!(g.state, State::Zooming);
    assert!(!g.key_down_event(Key::P));
    assert!(g.paused);
    assert!(!g.key_down_event(Key::Other));
    assert!(g.paused);
    assert_eq!(g.state, State::Zooming);
}

#[test]
fn zooming_pieces_have_palette_fills_and_arcs() {
    let g = game();
    let pieces = g.zooming_pieces();
    assert_eq!(pieces.len(), 30);
    assert_eq!(pieces[0].square.side, 10_000);
    assert_eq!(pieces[5].square.side, 80_000);
    assert_eq!(pieces[0].fill, 0xB00B69);
    assert_eq!(pieces[4].fill, 0xB00B69);
    assert_eq!(pieces[3].fill, 0x069420);
    assert_eq!(pieces[2].arc.len(), 101);
    assert_eq!(pieces[2].arc[0], pieces[2].curve.p0);
    assert_eq!(pieces[2].arc[100], pieces[2].curve.p2);
}

#[test]
fn rotating_layout_shrinks_and_turns() {
    let mut g = game();
    g.state.swap();
    g.update();
    g.update();
    let squares = g.rotating_layout();
    assert_eq!(squares.len(), 20);
    assert_eq!(squares[0].side, 1_000_000_000);
    assert_eq!(squares[1].side, 618_034_000);
    assert_eq!(squares[2].side, 381_966_025);
    assert_eq!(squares[0].angle, 0);
    assert_eq!(squares[3].angle, 60_000);
    assert_eq!(squares[1].fill, 0x042069);
}
