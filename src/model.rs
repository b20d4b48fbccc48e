//! Game model: paddles, ball and the board that owns them.
use vstd::prelude::*;

verus! {

pub const WIDTH: usize = 80;

pub const HEIGHT: usize = 24;

pub const PADDLE_HEIGHT: usize = 5;

/// Cells a paddle moves per update.
pub const PADDLE_SPEED: usize = 1;

/// The ball moves on every N-th frame (higher is slower).
pub const BALL_SPEED_DIVISOR: usize = 2;

/// A vertical paddle: fixed column `x`, top row `y`, `height` rows tall.
#[derive(Debug, Clone, Copy, PartialEq, Eq, Structural)]
pub struct Paddle {
    pub x: usize,
    pub y: usize,
    pub height: usize,
}

/// Largest top row for a paddle of height `h` on a board of `board_height`
/// rows, so that its body stays off the bottom border (0 when none fits).
pub open spec fn paddle_max_y(board_height: int, h: int) -> int {
    if board_height - h - 1 > 0 {
        board_height - h - 1
    } else {
        0
    }
}

impl Paddle {
    /// The paddle body lies strictly between the top and bottom border rows.
    pub open spec fn within(self, board_height: int) -> bool {
        1 <= self.y <= board_height - self.height - 1
    }

    pub open spec fn moved_up(self) -> Paddle {
        Paddle { y: if self.y > 1 { (self.y - 1) as usize } else { self.y }, ..self }
    }

    pub open spec fn moved_down(self, board_height: int) -> Paddle {
        Paddle {
            y: if self.y < paddle_max_y(board_height, self.height as int) {
                (self.y + 1) as usize
            } else {
                self.y
            },
            ..self
        }
    }

    /// Move the paddle up by `PADDLE_SPEED`, never above row 1.
    pub fn move_up(&mut self)
        ensures
            *final(self) == old(self).moved_up(),
    {
        if self.y > 1 + PADDLE_SPEED {
            self.y -= PADDLE_SPEED;
        } else if self.y > 1 {
            self.y = 1;
        }
    }

    /// Move the paddle down by `PADDLE_SPEED`, never onto the bottom border.
    pub fn move_down(&mut self, board_height: usize)
        ensures
            *final(self) == old(self).moved_down(board_height as int),
    {
        let max_y = board_height.saturating_sub(self.height).saturating_sub(1);
        if max_y >= PADDLE_SPEED && self.y < max_y - PADDLE_SPEED {
            self.y += PADDLE_SPEED;
        } else if self.y < max_y {
            self.y = max_y;
        }
    }
}

/// Where a coordinate `p` lands after moving by `d` on an axis of `limit`
/// cells: the move is dropped when it would leave `[0, limit)`.
pub open spec fn step_coord(p: int, d: int, limit: int) -> int {
    if 0 <= p + d < limit {
        p + d
    } else {
        p
    }
}

fn advance_coord(p: usize, d: i8, limit: usize) -> (r: usize)
    ensures
        r == step_coord(p as int, d as int, limit as int),
{
    if d >= 0 {
        let du = d as usize;
        if p < limit && du < limit - p {
            p + du
        } else {
            p
        }
    } else {
        let du = (-(d as i16)) as usize;
        if du <= p && p - du < limit {
            p - du
        } else {
            p
        }
    }
}

/// The ball: cell position and per-move velocity.
#[derive(Debug, Clone, Copy, PartialEq, Eq, Structural)]
pub struct Ball {
    pub x: usize,
    pub y: usize,
    pub dx: i8,
    pub dy: i8,
}

impl Ball {
    /// Both velocity components lie in `{-1, 0, 1}`.
    pub open spec fn velocity_ok(self) -> bool {
        -1 <= self.dx <= 1 && -1 <= self.dy <= 1
    }

    /// In play: horizontal motion never stops, vertical is in `{-1, 0, 1}`.
    pub open spec fn in_play(self) -> bool {
        (self.dx == 1 || self.dx == -1) && -1 <= self.dy <= 1
    }

    pub open spec fn moved(self) -> Ball {
        Ball {
            x: step_coord(self.x as int, self.dx as int, WIDTH as int) as usize,
            y: step_coord(self.y as int, self.dy as int, HEIGHT as int) as usize,
            ..self
        }
    }

    /// The ball at the centre of a `w` by `h` board, moving straight
    /// towards the left (`towards_left`) or the right.
    pub open spec fn centered(w: int, h: int, towards_left: bool) -> Ball {
        Ball { x: (w / 2) as usize, y: (h / 2) as usize, dx: if towards_left { -1i8 } else { 1i8 }, dy: 0 }
    }

    /// Move by the velocity; a move that would leave the board on an axis is
    /// dropped for that axis.
    pub fn update_position(&mut self)
        ensures
            *final(self) == old(self).moved(),
    {
        self.x = advance_coord(self.x, self.dx, WIDTH);
        self.y = advance_coord(self.y, self.dy, HEIGHT);
    }

    /// Reverse the horizontal direction (paddle hit).
    pub fn bounce_horizontal(&mut self)
        requires
            old(self).dx != i8::MIN,
        ensures
            *final(self) == (Ball { dx: (-old(self).dx) as i8, ..*old(self) }),
    {
        self.dx = -self.dx;
    }

    /// Reverse the vertical direction (wall hit).
    pub fn bounce_vertical(&mut self)
        requires
            old(self).dy != i8::MIN,
        ensures
            *final(self) == (Ball { dy: (-old(self).dy) as i8, ..*old(self) }),
    {
        self.dy = -self.dy;
    }

    /// Put the ball at the centre of the board, moving straight away from the
    /// side that was just scored on: left when `towards_left`, else right.
    pub fn reset(&mut self, board_width: usize, board_height: usize, towards_left: bool)
        ensures
            *final(self) == Ball::centered(board_width as int, board_height as int, towards_left),
    {
        self.x = board_width / 2;
        self.y = board_height / 2;
        self.dx = if towards_left {
            -1
        } else {
            1
        };
        self.dy = 0;
    }
}

/// Outcome of one physics update.
#[derive(Debug, Clone, Copy, PartialEq, Eq, Structural)]
pub enum BallEvent {
    /// Nothing of note happened this tick.
    NoEvent,
    WallBounce,
    PaddleBounce,
    /// The ball left through the left side: the right player scores.
    LeftGoal,
    /// The ball left through the right side: the left player scores.
    RightGoal,
}

/// The band of a paddle that the ball struck.
#[derive(Debug, Clone, Copy, PartialEq, Eq, Structural)]
pub enum PaddleHitLocation {
    TopEdge,
    TopMid,
    Center,
    BottomMid,
    BottomEdge,
}

/// The band for a ball `rel` rows below the paddle's top row.
pub open spec fn hit_zone(rel: int) -> PaddleHitLocation {
    if rel <= 0 {
        PaddleHitLocation::TopEdge
    } else if rel == 1 {
        PaddleHitLocation::TopMid
    } else if rel == 2 {
        PaddleHitLocation::Center
    } else if rel == 3 {
        PaddleHitLocation::BottomMid
    } else {
        PaddleHitLocation::BottomEdge
    }
}

/// Vertical velocity after a bounce off the given band.
pub open spec fn zone_dy(loc: PaddleHitLocation) -> i8 {
    match loc {
        PaddleHitLocation::TopEdge => -1i8,
        PaddleHitLocation::TopMid => -1i8,
        PaddleHitLocation::Center => 0i8,
        PaddleHitLocation::BottomMid => 1i8,
        PaddleHitLocation::BottomEdge => 1i8,
    }
}

/// The playing field: fixed dimensions, two paddles, the ball, and a frame
/// counter that paces the ball.
#[derive(Debug, Clone, Copy, PartialEq, Eq, Structural)]
pub struct Board {
    pub width: usize,
    pub height: usize,
    pub left: Paddle,
    pub right: Paddle,
    pub ball: Ball,
    pub frame_counter: usize,
}

impl Board {
    /// Dimensions that the border arithmetic needs, and a velocity in range.
    pub open spec fn wf(self) -> bool {
        self.width >= 1 && self.height >= 2 && self.ball.velocity_ok()
    }

    /// An angled ball sits out every fourth frame.
    pub open spec fn skips_angled_frame(self) -> bool {
        self.ball.dy != 0 && self.frame_counter % 4 == 3
    }

    /// Whether this update moves the ball.
    pub open spec fn ball_advances(self) -> bool {
        !self.skips_angled_frame() && (self.frame_counter + 1) % (BALL_SPEED_DIVISOR as int) == 0
    }

    /// The ball's cell lies on the paddle's column, within its body.
    pub open spec fn touches(self, p: Paddle) -> bool {
        self.ball.x == p.x && p.y <= self.ball.y < p.y + p.height
    }

    pub open spec fn hit_location_on(self, p: Paddle) -> PaddleHitLocation {
        hit_zone(if self.ball.y >= p.y { self.ball.y - p.y } else { 0 })
    }

    /// The paddle the ball touches, left first, and the band it touches.
    pub open spec fn paddle_hit(self) -> Option<PaddleHitLocation> {
        if self.touches(self.left) {
            Some(self.hit_location_on(self.left))
        } else if self.touches(self.right) {
            Some(self.hit_location_on(self.right))
        } else {
            None
        }
    }

    /// Moving up at or above row 1, or down at or below row `height - 2`.
    pub open spec fn wall_hit(self) -> bool {
        (self.ball.y <= 1 && self.ball.dy < 0) || (self.ball.y >= self.height - 2 && self.ball.dy
            > 0)
    }

    /// The board after the ball has moved and the collision rules applied,
    /// with the event they produce.
    pub open spec fn resolved(self) -> (Board, BallEvent) {
        match self.paddle_hit() {
            Some(loc) => (
                Board {
                    ball: Ball { dx: (-self.ball.dx) as i8, dy: zone_dy(loc), ..self.ball },
                    ..self
                },
                BallEvent::PaddleBounce,
            ),
            None => if self.wall_hit() {
                (Board { ball: Ball { dy: (-self.ball.dy) as i8, ..self.ball }, ..self }, BallEvent::WallBounce)
            } else if self.ball.x == 0 {
                (
                    Board {
                        ball: Ball::centered(self.width as int, self.height as int, true),
                        frame_counter: 0,
                        ..self
                    },
                    BallEvent::LeftGoal,
                )
            } else if self.ball.x >= self.width - 1 {
                (
                    Board {
                        ball: Ball::centered(self.width as int, self.height as int, false),
                        frame_counter: 0,
                        ..self
                    },
                    BallEvent::RightGoal,
                )
            } else {
                (self, BallEvent::NoEvent)
            },
        }
    }

    /// One physics update: the board after it and the event it reports.
    pub open spec fn stepped(self) -> (Board, BallEvent) {
        let counted = Board { frame_counter: (self.frame_counter + 1) as usize, ..self };
        if self.ball_advances() {
            Board { ball: self.ball.moved(), ..counted }.resolved()
        } else {
            (counted, BallEvent::NoEvent)
        }
    }

    pub open spec fn static_layout() -> Board {
        Board {
            width: WIDTH,
            height: HEIGHT,
            left: Paddle { x: 1, y: ((HEIGHT - PADDLE_HEIGHT) / 2) as usize, height: PADDLE_HEIGHT },
            right: Paddle {
                x: (WIDTH - 2) as usize,
                y: ((HEIGHT - PADDLE_HEIGHT) / 2) as usize,
                height: PADDLE_HEIGHT,
            },
            ball: Ball { x: (WIDTH / 2) as usize, y: (HEIGHT / 2) as usize, dx: 0, dy: 0 },
            frame_counter: 0,
        }
    }

    /// A board with paddles centred vertically and a resting ball in the middle.
    pub fn new_static() -> (b: Self)
        ensures
            b == Board::static_layout(),
            b.wf(),
    {
        let paddle_y = (HEIGHT - PADDLE_HEIGHT) / 2;
        Board {
            width: WIDTH,
            height: HEIGHT,
            left: Paddle { x: 1, y: paddle_y, height: PADDLE_HEIGHT },
            right: Paddle { x: WIDTH - 2, y: paddle_y, height: PADDLE_HEIGHT },
            ball: Ball { x: WIDTH / 2, y: HEIGHT / 2, dx: 0, dy: 0 },
            frame_counter: 0,
        }
    }

    pub open spec fn new_game_spec() -> Board {
        Board {
            ball: Ball { dx: 1i8, dy: -1i8, ..Board::static_layout().ball },
            ..Board::static_layout()
        }
    }

    /// The static layout with the ball moving right and up.
    pub fn new_game() -> (b: Self)
        ensures
            b == Board::new_game_spec(),
            b.wf(),
            b.ball.in_play(),
    {
        let mut board = Self::new_static();
        board.ball.dx = 1;
        board.ball.dy = -1;
        board
    }

    /// Advance the ball by one frame and report what happened.
    ///
    /// The frame counter paces the ball; when it moves, a paddle hit is
    /// resolved first, then a wall hit, then a goal, which re-centres the
    /// ball and restarts the counter.
    pub fn update_ball(&mut self) -> (e: BallEvent)
        requires
            old(self).wf(),
            old(self).frame_counter < usize::MAX,
        ensures
            (*final(self), e) == old(self).stepped(),
            final(self).wf(),
    {
        let speed_divisor = BALL_SPEED_DIVISOR;
        if self.ball.dy != 0 {
            if self.frame_counter % 4 == 3 {
                self.frame_counter += 1;
                return BallEvent::NoEvent;
            }
        }
        self.frame_counter += 1;
        if self.frame_counter % speed_divisor != 0 {
            return BallEvent::NoEvent;
        }
        self.ball.update_position();

        if let Some(paddle_hit) = self.check_paddle_collision_with_angle() {
            self.ball.bounce_horizontal();
            match paddle_hit {
                PaddleHitLocation::TopEdge => {
                    self.ball.dy = -1;
                },
                PaddleHitLocation::TopMid => {
                    self.ball.dy = -1;
                },
                PaddleHitLocation::Center => {
                    self.ball.dy = 0;
                },
                PaddleHitLocation::BottomMid => {
                    self.ball.dy = 1;
                },
                PaddleHitLocation::BottomEdge => {
                    self.ball.dy = 1;
                },
            }
            return BallEvent::PaddleBounce;
        }
        if self.check_wall_collision() {
            self.ball.bounce_vertical();
            return BallEvent::WallBounce;
        }
        if self.ball.x == 0 {
            self.ball.reset(self.width, self.height, true);
            self.frame_counter = 0;
            return BallEvent::LeftGoal;
        }
        if self.ball.x >= self.width - 1 {
            self.ball.reset(self.width, self.height, false);
            self.frame_counter = 0;
            return BallEvent::RightGoal;
        }
        BallEvent::NoEvent
    }

    fn touches_paddle(&self, p: &Paddle) -> (r: bool)
        ensures
            r == self.touches(*p),
    {
        self.ball.x == p.x && self.ball.y >= p.y && self.ball.y - p.y < p.height
    }

    /// The paddle band the ball touches, left paddle first, if any.
    pub fn check_paddle_collision_with_angle(&self) -> (r: Option<PaddleHitLocation>)
        ensures
            r == self.paddle_hit(),
    {
        if self.touches_paddle(&self.left) {
            return Some(self.get_paddle_hit_location(&self.left));
        }
        if self.touches_paddle(&self.right) {
            return Some(self.get_paddle_hit_location(&self.right));
        }
        None
    }

    /// The band of `paddle` level with the ball: its offset from the top row
    /// (0 when above it) picks top edge, upper, centre, lower, bottom edge.
    pub fn get_paddle_hit_location(&self, paddle: &Paddle) -> (r: PaddleHitLocation)
        ensures
            r == self.hit_location_on(*paddle),
    {
        let relative_y = self.ball.y.saturating_sub(paddle.y);
        match relative_y {
            0 => PaddleHitLocation::TopEdge,
            1 => PaddleHitLocation::TopMid,
            2 => PaddleHitLocation::Center,
            3 => PaddleHitLocation::BottomMid,
            _ => PaddleHitLocation::BottomEdge,
        }
    }

    /// Whether the ball touches either paddle.
    pub fn check_paddle_collision(&self) -> (r: bool)
        ensures
            r == self.paddle_hit() is Some,
    {
        if self.ball.x == self.left.x {
            if self.ball.y >= self.left.y && self.ball.y - self.left.y < self.left.height {
                return true;
            }
        }
        if self.ball.x == self.right.x {
            if self.ball.y >= self.right.y && self.ball.y - self.right.y < self.right.height {
                return true;
            }
        }
        false
    }

    /// Whether the ball is at the top or bottom wall moving into it.
    pub fn check_wall_collision(&self) -> (r: bool)
        requires
            self.height >= 2,
        ensures
            r == self.wall_hit(),
    {
        if self.ball.y <= 1 && self.ball.dy < 0 {
            return true;
        }
        if self.ball.y >= self.height - 2 && self.ball.dy > 0 {
            return true;
        }
        false
    }

    pub fn move_left_paddle_up(&mut self)
        ensures
            *final(self) == (Board { left: old(self).left.moved_up(), ..*old(self) }),
    {
        self.left.move_up();
    }

    pub fn move_left_paddle_down(&mut self)
        ensures
            *final(self) == (Board {
                left: old(self).left.moved_down(old(self).height as int),
                ..*old(self)
            }),
    {
        self.left.move_down(self.height);
    }

    pub fn move_right_paddle_up(&mut self)
        ensures
            *final(self) == (Board { right: old(self).right.moved_up(), ..*old(self) }),
    {
        self.right.move_up();
    }

    pub fn move_right_paddle_down(&mut self)
        ensures
            *final(self) == (Board {
                right: old(self).right.moved_down(old(self).height as int),
                ..*old(self)
            }),
    {
        self.right.move_down(self.height);
    }
}

/// The paddle after a sequence of moves applied in order, `true` standing
/// for a move up and `false` for a move down on a board of `board_height` rows.
pub open spec fn after_moves(p: Paddle, moves: Seq<bool>, board_height: int) -> Paddle
    decreases moves.len(),
{
    if moves.len() == 0 {
        p
    } else {
        let before = after_moves(p, moves.drop_last(), board_height);
        if moves.last() {
            before.moved_up()
        } else {
            before.moved_down(board_height)
        }
    }
}

/// A paddle that starts between the border rows stays there through any
/// sequence of moves up and down, however many.
pub proof fn lemma_paddle_stays_within(p: Paddle, moves: Seq<bool>, board_height: usize)
    requires
        p.within(board_height as int),
    ensures
        after_moves(p, moves, board_height as int).within(board_height as int),
    decreases moves.len(),
{
    if moves.len() > 0 {
        lemma_paddle_stays_within(p, moves.drop_last(), board_height);
    }
}

/// Clamping is idempotent: at the top row a move up, and at the lowest
/// allowed row a move down, leave the paddle where it is.
pub proof fn lemma_paddle_clamp_idempotent(p: Paddle, board_height: usize)
    requires
        p.within(board_height as int),
    ensures
        p.y == 1 ==> p.moved_up() == p,
        p.y == board_height - p.height - 1 ==> p.moved_down(board_height as int) == p,
{
}

/// A ball in play stays in play through any update: after a wall or paddle
/// bounce (and after a goal) `dx` is -1 or 1 and `dy` is -1, 0 or 1.
pub proof fn lemma_ball_stays_in_play(b: Board)
    requires
        b.wf(),
        b.ball.in_play(),
    ensures
        b.stepped().0.ball.in_play(),
        b.stepped().1 == BallEvent::WallBounce ==> b.stepped().0.ball.dy != 0,
{
}

/// A goal is reported exactly when the moved ball stands on the left column
/// (or at or past the right one) with no paddle or wall hit; it puts the ball
/// at the centre moving away from that side, level, and restarts the counter.
pub proof fn lemma_goal_resets(b: Board)
    requires
        b.wf(),
    ensures
        ({
            let moved = Board {
                ball: b.ball.moved(),
                frame_counter: (b.frame_counter + 1) as usize,
                ..b
            };
            let open_field = b.ball_advances() && moved.paddle_hit() is None && !moved.wall_hit();
            &&& b.stepped().1 == BallEvent::LeftGoal <==> open_field && moved.ball.x == 0
            &&& b.stepped().1 == BallEvent::RightGoal <==> open_field && moved.ball.x != 0
                && moved.ball.x >= b.width - 1
        }),
        b.stepped().1 == BallEvent::LeftGoal ==> {
            let a = b.stepped().0;
            &&& a.ball.x == b.width / 2
            &&& a.ball.y == b.height / 2
            &&& a.ball.dx == -1
            &&& a.ball.dy == 0
            &&& a.frame_counter == 0
        },
        b.stepped().1 == BallEvent::RightGoal ==> {
            let a = b.stepped().0;
            &&& a.ball.x == b.width / 2
            &&& a.ball.y == b.height / 2
            &&& a.ball.dx == 1
            &&& a.ball.dy == 0
            &&& a.frame_counter == 0
        },
{
}

/// A level ball moves on the updates that bring the counter to an even
/// number, and on the others only the counter changes.
pub proof fn lemma_level_ball_pacing(b: Board)
    requires
        b.ball.dy == 0,
    ensures
        b.ball_advances() <==> (b.frame_counter + 1) % 2 == 0,
        !b.ball_advances() ==> b.stepped() == (
            Board { frame_counter: (b.frame_counter + 1) as usize, ..b },
            BallEvent::NoEvent,
        ),
{
}

/// On a board of the standard size, a ball on the board stays on it.
pub proof fn lemma_ball_stays_on_board(b: Board)
    requires
        b.wf(),
        b.width == WIDTH,
        b.height == HEIGHT,
        b.ball.x < WIDTH,
        b.ball.y < HEIGHT,
    ensures
        b.stepped().0.ball.x < WIDTH,
        b.stepped().0.ball.y < HEIGHT,
        b.stepped().0.width == WIDTH,
        b.stepped().0.height == HEIGHT,
{
}

} // verus!
