use vstd::prelude::*;
use vstd::arithmetic::power2::{pow2, lemma2_to64, lemma_pow2_unfold};
use crate::coord::Coord;
use crate::spiral::{Curve, Square, build_spiral, fib, spiral_fits, square_is, spiral_curve_is};
use crate::style::{Style, color_at};
use crate::sampler::{sample, curve_point};

verus! {

/// Lengths and angles below are counted in millionths (of a pixel, of a radian).
pub const UNIT: u64 = 1_000_000;

/// Size of the first square of the zooming spiral when it starts over (0.01).
pub const START_SIZE: u64 = 10_000;

/// Size at which the zooming spiral starts over.
pub const SIZE_LIMIT: u64 = 3_322_971;

/// Growth of the zooming spiral per tick, in hundredths (a factor of 1.05).
pub const GROWTH_PERCENT: u64 = 105;

/// Rotation added per tick in the rotating mode (0.01 rad).
pub const THETA_STEP: u64 = 10_000;

/// The least whole number of millionths of a radian that is not below 2 pi.
pub const FULL_TURN: u64 = 6_283_186;

/// Number of squares of the zooming spiral.
pub const ZOOM_SQUARES: usize = 30;

/// Number of squares of the rotating figure.
pub const ROTATING_SQUARES: usize = 20;

/// Side of the first square of the rotating figure (1000 pixels).
pub const ROTATING_FIRST_SIDE: u64 = 1_000_000_000;

/// The inverse of the golden ratio, in millionths.
pub const INV_GOLDEN_RATIO: u64 = 618_034;

/// Which animation drives the picture.
#[derive(Clone, Copy, Debug, PartialEq, Eq, Structural)]
pub enum State {
    Zooming,
    Rotating,
}

impl State {
    pub open spec fn swapped(self) -> State {
        match self {
            State::Zooming => State::Rotating,
            State::Rotating => State::Zooming,
        }
    }

    /// Switches to the other animation.
    pub fn swap(&mut self)
        ensures
            *final(self) == old(self).swapped(),
    {
        *self = match self {
            State::Zooming => State::Rotating,
            State::Rotating => State::Zooming,
        }
    }
}

/// The keys that the animation answers to.
#[derive(Clone, Copy, Debug, PartialEq, Eq, Structural)]
pub enum Key {
    Escape,
    Q,
    Space,
    S,
    P,
    Other,
}

/// Size of the window, in pixels, and its centre, where the spiral starts.
#[derive(Clone, Copy, Debug, PartialEq, Eq, Structural)]
pub struct GameConf {
    pub window_size: Coord,
    pub window_center: Coord,
}

impl GameConf {
    pub fn new(window_size: Coord) -> (r: GameConf)
        requires
            window_size.x >= 0,
            window_size.y >= 0,
        ensures
            r.window_size == window_size,
            r.window_center.x == window_size.x / 2,
            r.window_center.y == window_size.y / 2,
    {
        GameConf {
            window_size,
            window_center: Coord::new(window_size.x / 2, window_size.y / 2),
        }
    }
}

/// One square of the rotating figure: its side, the angle it is turned by and its fill.
#[derive(Clone, Copy, Debug, PartialEq, Eq, Structural)]
pub struct RotatedSquare {
    pub angle: u64,
    pub side: u64,
    pub fill: u32,
}

/// Number of segments of the polyline that stands for each arc.
pub const ARC_SEGMENTS: u32 = 100;

/// One square of the zooming spiral, ready to draw: the square, its fill, its arc
/// and the points of the polyline along that arc.
#[derive(Clone, Debug)]
pub struct ZoomPiece {
    pub square: Square,
    pub fill: u32,
    pub curve: Curve,
    pub arc: Vec<Coord>,
}

/// `piece` is square `j` of the zooming spiral of size `s` drawn with the palette `colors`.
pub open spec fn zoom_piece_is(piece: ZoomPiece, s: int, j: nat, colors: Seq<u32>) -> bool {
    &&& square_is(piece.square, s, j)
    &&& spiral_curve_is(piece.curve, s, j)
    &&& piece.fill == color_at(colors, j as int)
    &&& piece.arc.len() == ARC_SEGMENTS + 1
    &&& forall|k: int|
        0 <= k <= ARC_SEGMENTS ==> #[trigger] piece.arc[k].x == curve_point(piece.curve, k, ARC_SEGMENTS as int).0
            && piece.arc[k].y == curve_point(piece.curve, k, ARC_SEGMENTS as int).1
}

/// The size of the zooming spiral after one tick from `size`.
pub open spec fn grown_size(size: int) -> int {
    let g = size * GROWTH_PERCENT / 100;
    if g >= SIZE_LIMIT {
        START_SIZE as int
    } else {
        g
    }
}

/// The rotation step of the rotating figure after one tick from `theta`.
pub open spec fn turned(theta: int) -> int {
    let t = theta + THETA_STEP;
    if t >= FULL_TURN {
        0
    } else {
        t
    }
}

/// Side of square `i` of the rotating figure: each square is the one before it
/// shrunk by the inverse golden ratio, rounded down.
pub open spec fn rotated_side(i: nat) -> int
    decreases i,
{
    if i == 0 {
        ROTATING_FIRST_SIDE as int
    } else {
        rotated_side((i - 1) as nat) * INV_GOLDEN_RATIO / UNIT as int
    }
}

proof fn lemma_fib_below_pow2(k: nat)
    ensures
        fib(k) <= pow2(k),
    decreases k,
{
    lemma2_to64();
    if k >= 2 {
        lemma_fib_below_pow2((k - 1) as nat);
        lemma_fib_below_pow2((k - 2) as nat);
        lemma_pow2_unfold(k);
        lemma_pow2_unfold((k - 1) as nat);
    }
}

/// A zooming spiral of any size below the limit can be laid out.
proof fn lemma_zoom_fits(s: int)
    requires
        0 <= s < SIZE_LIMIT,
    ensures
        spiral_fits(s, ZOOM_SQUARES as nat),
{
    lemma_fib_below_pow2(33);
    lemma2_to64();
    lemma_pow2_unfold(33);
    assert(pow2(33) == 0x200000000);
    let f = fib(33) as int;
    assert(s * f <= i64::MAX) by (nonlinear_arith)
        requires
            0 <= s < SIZE_LIMIT,
            0 <= f <= 0x200000000,
    ;
}

proof fn lemma_rotated_side_bound(i: nat)
    ensures
        0 <= rotated_side(i) <= ROTATING_FIRST_SIDE,
    decreases i,
{
    if i > 0 {
        lemma_rotated_side_bound((i - 1) as nat);
        let x = rotated_side((i - 1) as nat);
        assert(0 <= x * INV_GOLDEN_RATIO / UNIT as int <= x) by (nonlinear_arith)
            requires
                0 <= x,
        ;
    }
}

/// The animation: configuration, style, the parameter of each mode, the mode that
/// drives the picture and whether time stands still.
#[derive(Clone, Debug)]
pub struct Game {
    pub conf: GameConf,
    pub style: Style,
    pub starting_size: u64,
    pub delta_theta: u64,
    pub state: State,
    pub paused: bool,
}

impl Game {
    pub open spec fn wf(&self) -> bool {
        &&& self.style.wf()
        &&& self.starting_size < SIZE_LIMIT
        &&& self.delta_theta < FULL_TURN
    }

    /// The animation after one tick: nothing moves while paused; otherwise the
    /// parameter of the active mode advances and wraps.
    pub open spec fn ticked(self) -> Game {
        if self.paused {
            self
        } else {
            match self.state {
                State::Zooming => Game { starting_size: grown_size(self.starting_size as int) as u64, ..self },
                State::Rotating => Game { delta_theta: turned(self.delta_theta as int) as u64, ..self },
            }
        }
    }

    pub open spec fn pause_toggled(self) -> Game {
        Game { paused: !self.paused, ..self }
    }

    pub open spec fn state_swapped(self) -> Game {
        Game { state: self.state.swapped(), ..self }
    }

    /// A new animation in the zooming mode, at the smallest size, unrotated and running.
    pub fn new(conf: GameConf, style: Style) -> (r: Game)
        requires
            style.wf(),
        ensures
            r.wf(),
            r.conf == conf,
            r.style == style,
            r.starting_size == START_SIZE,
            r.delta_theta == 0,
            r.state == State::Zooming,
            !r.paused,
    {
        Game { conf, style, starting_size: START_SIZE, delta_theta: 0, state: State::Zooming, paused: false }
    }

    pub fn toggle_pause(&mut self)
        ensures
            *final(self) == old(self).pause_toggled(),
    {
        self.paused = !self.paused;
    }

    /// Advances the animation by one tick.
    pub fn update(&mut self)
        requires
            old(self).wf(),
        ensures
            final(self).wf(),
            *final(self) == old(self).ticked(),
    {
        if self.paused {
            return;
        }
        match self.state {
            State::Zooming => {
                let grown = self.starting_size * GROWTH_PERCENT / 100;
                self.starting_size = if grown >= SIZE_LIMIT { START_SIZE } else { grown };
            },
            State::Rotating => {
                let t = self.delta_theta + THETA_STEP;
                self.delta_theta = if t >= FULL_TURN { 0 } else { t };
            },
        }
    }

    /// The squares and arcs of the zooming spiral at its present size.
    pub fn zooming_layout(&self) -> (r: (Vec<Square>, Vec<Curve>))
        requires
            self.wf(),
        ensures
            r.0.len() == ZOOM_SQUARES,
            r.1.len() == ZOOM_SQUARES,
            forall|j: int|
                0 <= j < ZOOM_SQUARES ==> square_is(#[trigger] r.0[j], self.starting_size as int, j as nat),
            forall|j: int|
                0 <= j < ZOOM_SQUARES ==> spiral_curve_is(
                    #[trigger] r.1[j],
                    self.starting_size as int,
                    j as nat,
                ),
    {
        proof {
            lemma_zoom_fits(self.starting_size as int);
        }
        build_spiral(self.starting_size as i64, ZOOM_SQUARES)
    }

    /// Everything the zooming mode draws: each square of the spiral at the present
    /// size with its fill from the palette and its arc as a polyline.
    pub fn zooming_pieces(&self) -> (r: Vec<ZoomPiece>)
        requires
            self.wf(),
        ensures
            r.len() == ZOOM_SQUARES,
            forall|j: int|
                0 <= j < ZOOM_SQUARES ==> zoom_piece_is(
                    #[trigger] r[j],
                    self.starting_size as int,
                    j as nat,
                    self.style.main_colors@,
                ),
    {
        let (squares, curves) = self.zooming_layout();
        let mut pieces: Vec<ZoomPiece> = Vec::new();
        let mut j: usize = 0;
        while j < ZOOM_SQUARES
            invariant
                self.wf(),
                j <= ZOOM_SQUARES,
                squares.len() == ZOOM_SQUARES,
                curves.len() == ZOOM_SQUARES,
                forall|i: int|
                    0 <= i < ZOOM_SQUARES ==> square_is(#[trigger] squares[i], self.starting_size as int, i as nat),
                forall|i: int|
                    0 <= i < ZOOM_SQUARES ==> spiral_curve_is(
                        #[trigger] curves[i],
                        self.starting_size as int,
                        i as nat,
                    ),
                pieces.len() == j,
                forall|i: int|
                    0 <= i < j ==> zoom_piece_is(
                        #[trigger] pieces[i],
                        self.starting_size as int,
                        i as nat,
                        self.style.main_colors@,
                    ),
            decreases ZOOM_SQUARES - j,
        {
            let curve = curves[j];
            let arc = sample(&curve, ARC_SEGMENTS);
            let fill = self.style.get_color(j);
            let piece = ZoomPiece { square: squares[j], fill, curve, arc };
            assert(zoom_piece_is(piece, self.starting_size as int, j as nat, self.style.main_colors@));
            pieces.push(piece);
            j = j + 1;
        }
        pieces
    }

    /// The squares of the rotating figure: square `i` is turned by `i` rotation steps
    /// and has the side `rotated_side(i)`.
    pub fn rotating_layout(&self) -> (r: Vec<RotatedSquare>)
        requires
            self.wf(),
        ensures
            r.len() == ROTATING_SQUARES,
            forall|i: int|
                0 <= i < ROTATING_SQUARES ==> (#[trigger] r[i]).angle == i * self.delta_theta
                    && r[i].side == rotated_side(i as nat) && r[i].fill == color_at(
                    self.style.main_colors@,
                    i,
                ),
    {
        let mut squares: Vec<RotatedSquare> = Vec::new();
        let mut angle: u64 = 0;
        let mut side: u64 = ROTATING_FIRST_SIDE;
        let mut i: usize = 0;
        while i < ROTATING_SQUARES
            invariant
                self.wf(),
                i <= ROTATING_SQUARES,
                squares.len() == i,
                angle == i * self.delta_theta,
                side == rotated_side(i as nat),
                forall|j: int|
                    0 <= j < i ==> (#[trigger] squares[j]).angle == j * self.delta_theta
                        && squares[j].side == rotated_side(j as nat) && squares[j].fill
                        == color_at(self.style.main_colors@, j),
            decreases ROTATING_SQUARES - i,
        {
            proof {
                lemma_rotated_side_bound(i as nat);
                assert(angle + self.delta_theta == (i + 1) * self.delta_theta) by (nonlinear_arith)
                    requires
                        angle == i * self.delta_theta,
                ;
                assert((i + 1) * self.delta_theta <= 20 * FULL_TURN) by (nonlinear_arith)
                    requires
                        i < 20,
                        self.delta_theta < FULL_TURN,
                ;
            }
            let fill = self.style.get_color(i);
            squares.push(RotatedSquare { angle, side, fill });
            angle = angle + self.delta_theta;
            side = side * INV_GOLDEN_RATIO / UNIT;
            i = i + 1;
        }
        squares
    }

    /// Answers a key: Escape and Q ask to quit (the result is true), Space and S swap
    /// the mode, P pauses or resumes; other keys change nothing.
    pub fn key_down_event(&mut self, key: Key) -> (quit: bool)
        ensures
            quit <==> (key == Key::Escape || key == Key::Q),
            *final(self) == (if key == Key::Space || key == Key::S {
                old(self).state_swapped()
            } else if key == Key::P {
                old(self).pause_toggled()
            } else {
                *old(self)
            }),
    {
        match key {
            Key::Escape | Key::Q => true,
            Key::Space | Key::S => {
                self.state.swap();
                false
            },
            Key::P => {
                self.toggle_pause();
                false
            },
            Key::Other => false,
        }
    }
}

/// While paused a tick changes nothing; in particular pausing a running zooming
/// animation and then ticking leaves its size as it was.
pub proof fn lemma_pause_freezes(g: Game)
    requires
        !g.paused,
    ensures
        g.pause_toggled().ticked() == g.pause_toggled(),
        g.pause_toggled().ticked().starting_size == g.starting_size,
        g.pause_toggled().ticked().delta_theta == g.delta_theta,
{
}

/// Swapping the mode twice gives back the original mode with both parameters as
/// they were.
pub proof fn lemma_swap_twice(g: Game)
    ensures
        g.state_swapped().state_swapped() == g,
{
}

/// A running zooming tick multiplies the size by 1.05 (rounded down), unless that
/// reaches the limit, in which case the size starts over; the rotation step is kept.
pub proof fn lemma_zoom_tick(g: Game)
    requires
        g.wf(),
        !g.paused,
        g.state == State::Zooming,
    ensures
        g.starting_size * 105 / 100 < SIZE_LIMIT ==> g.ticked().starting_size == g.starting_size * 105 / 100,
        g.starting_size * 105 / 100 >= SIZE_LIMIT ==> g.ticked().starting_size == START_SIZE,
        g.ticked().delta_theta == g.delta_theta,
        g.ticked().wf(),
{
}

} // verus!
