//! The small running game shown while an image is being written.

use vstd::prelude::*;

verus! {

/// The highest a jump takes the runner.
pub open spec fn max_height() -> int {
    15
}

/// `n * (n + 1) / 2` for the small values the runner's speed takes.
pub open spec fn tri(n: int) -> int {
    if n <= 0 {
        0
    } else if n == 1 {
        1
    } else if n == 2 {
        3
    } else if n == 3 {
        6
    } else if n == 4 {
        10
    } else {
        15
    }
}

/// What can be hit: a cactus or a rock.
#[derive(Clone, Copy, Debug, PartialEq, Eq, Structural)]
pub enum ObstacleKind {
    Cactus,
    Rock,
}

/// An obstacle scrolling towards the runner.
#[derive(Clone, Copy, Debug, PartialEq, Eq, Structural)]
pub struct Obstacle {
    pub x: i16,
    pub width: i16,
    pub kind: ObstacleKind,
}

impl Obstacle {
    /// An obstacle of the narrowest width at column `x`.
    pub fn new(x: i16, kind: ObstacleKind) -> (r: Self)
        ensures
            r == (Obstacle { x, width: 2, kind }),
    {
        Obstacle { x, width: 2, kind }
    }

    /// Its column.
    pub fn x(&self) -> (r: i16)
        ensures
            r == self.x,
    {
        self.x
    }

    /// Its kind.
    pub fn kind(&self) -> (r: ObstacleKind)
        ensures
            r == self.kind,
    {
        self.kind
    }
}

/// The state of the game.
#[derive(Clone, Debug)]
pub struct RunnerGame {
    tick: u64,
    score: u64,
    runner_y: i16,
    velocity: i16,
    viewport_width: i16,
    obstacles: Vec<Obstacle>,
    crashed: bool,
}

/// The game's state as values.
#[verifier::ext_equal]
pub ghost struct RunnerView {
    pub tick: u64,
    pub score: u64,
    pub runner_y: i16,
    pub velocity: i16,
    pub viewport_width: i16,
    pub obstacles: Seq<Obstacle>,
    pub crashed: bool,
}

impl View for RunnerGame {
    type V = RunnerView;

    closed spec fn view(&self) -> RunnerView {
        RunnerView {
            tick: self.tick,
            score: self.score,
            runner_y: self.runner_y,
            velocity: self.velocity,
            viewport_width: self.viewport_width,
            obstacles: self.obstacles@,
            crashed: self.crashed,
        }
    }
}

/// The game as it starts: nothing scrolled, the runner on the ground, an
/// 80-column view.
pub open spec fn fresh_runner() -> RunnerView {
    RunnerView {
        tick: 0,
        score: 0,
        runner_y: 0,
        velocity: 0,
        viewport_width: 80,
        obstacles: Seq::empty(),
        crashed: false,
    }
}

/// The runner's height and speed stay within one jump's arc.
pub open spec fn physics_ok(y: int, v: int) -> bool {
    &&& 0 <= y
    &&& -5 <= v <= 5
    &&& (v >= 0 ==> y + tri(v) <= max_height())
    &&& (v < 0 ==> y + tri(-v - 1) <= max_height())
    &&& (y == 0 ==> v >= 0)
}

/// An obstacle is narrow and has not yet left the view on the left.
pub open spec fn obstacle_ok(o: Obstacle) -> bool {
    2 <= o.width <= 3 && -o.width < o.x && o.x <= 32761
}

/// The game's own bounds.
pub open spec fn runner_wf(r: RunnerView) -> bool {
    &&& physics_ok(r.runner_y as int, r.velocity as int)
    &&& 32 <= r.viewport_width
    &&& forall|i: int| 0 <= i < r.obstacles.len() ==> obstacle_ok(#[trigger] r.obstacles[i])
}

pub open spec fn sat_add1(n: u64) -> u64 {
    if n == u64::MAX {
        n
    } else {
        (n + 1) as u64
    }
}

/// Height and speed after one step: the runner moves by its speed, slows by
/// one, and stops on landing.
pub open spec fn physics_step(y: int, v: int) -> (int, int) {
    if y > 0 || v > 0 {
        let ny = y + v;
        if ny <= 0 {
            (0, 0)
        } else {
            (ny, v - 1)
        }
    } else {
        (y, v)
    }
}

/// The obstacles moved one column left, dropping those fully past the edge.
pub open spec fn scroll(s: Seq<Obstacle>) -> Seq<Obstacle>
    decreases s.len(),
{
    if s.len() == 0 {
        s
    } else {
        let rest = scroll(s.drop_last());
        let o = s.last();
        let moved = Obstacle { x: (o.x - 1) as i16, width: o.width, kind: o.kind };
        if moved.x + moved.width > 0 {
            rest.push(moved)
        } else {
            rest
        }
    }
}

/// Whether an obstacle appears on this tick: from tick 8 on, every 28 ticks,
/// the interval shrinking by one per 180 points down to 18.
pub open spec fn spawn_due(tick: u64, score: u64) -> bool {
    if tick < 8 {
        false
    } else {
        let step = if score / 180 < 10 {
            score / 180
        } else {
            10
        };
        tick % ((28 - step) as u64) == 0
    }
}

/// Where new obstacles appear: six columns in from the view's right edge,
/// at column 24 at the least.
pub open spec fn spawn_column(viewport: i16) -> i16 {
    let s = if viewport - 6 < i16::MIN {
        i16::MIN
    } else {
        (viewport - 6) as i16
    };
    if s < 24 {
        24
    } else {
        s
    }
}

/// The obstacle spawned at a tick: cactus and rock alternate every 29 ticks,
/// widths 2 and 3 every 37.
pub open spec fn spawned(tick: u64, viewport: i16) -> Obstacle {
    Obstacle {
        x: spawn_column(viewport),
        width: (2 + ((tick / 37) % 2)) as i16,
        kind: if (tick / 29) % 2 == 0 {
            ObstacleKind::Cactus
        } else {
            ObstacleKind::Rock
        },
    }
}

/// Whether an obstacle covers the runner's columns while it is on the ground.
pub open spec fn hits(o: Obstacle, y: i16) -> bool {
    o.x <= 5 && o.x + o.width >= 4 && y == 0
}

/// Whether any obstacle hits the runner at height `y`.
pub open spec fn any_hit(obstacles: Seq<Obstacle>, y: i16) -> bool {
    exists|i: int| 0 <= i < obstacles.len() && hits(#[trigger] obstacles[i], y)
}

/// The game one tick later. A crashed game stands still.
pub open spec fn runner_step(r: RunnerView) -> RunnerView {
    if r.crashed {
        r
    } else {
        let tick = sat_add1(r.tick);
        let score = sat_add1(r.score);
        let (y, v) = physics_step(r.runner_y as int, r.velocity as int);
        let kept = scroll(r.obstacles);
        let obstacles = if spawn_due(tick, score) {
            kept.push(spawned(tick, r.viewport_width))
        } else {
            kept
        };
        RunnerView {
            tick,
            score,
            runner_y: y as i16,
            velocity: v as i16,
            viewport_width: r.viewport_width,
            obstacles,
            crashed: any_hit(obstacles, y as i16),
        }
    }
}

/// The game after the jump key: a crashed game starts over; a runner on the
/// ground takes off with speed 5.
pub open spec fn runner_jump(r: RunnerView) -> RunnerView {
    if r.crashed {
        fresh_runner()
    } else if r.runner_y == 0 {
        RunnerView { velocity: 5, ..r }
    } else {
        r
    }
}

/// The view width for a terminal width: 72% of it (as the install popup is)
/// less the border, at least 32 columns.
pub open spec fn viewport_for(width: u16) -> i16 {
    let scaled = if width * 72 > u16::MAX {
        u16::MAX as int
    } else {
        width * 72
    };
    let popup = scaled / 100;
    if popup - 4 < 32 {
        32
    } else {
        (popup - 4) as i16
    }
}

impl RunnerGame {
    /// A fresh game.
    pub fn new() -> (r: Self)
        ensures
            r@ == fresh_runner(),
            runner_wf(r@),
    {
        let r = RunnerGame {
            tick: 0,
            score: 0,
            runner_y: 0,
            velocity: 0,
            viewport_width: 80,
            obstacles: Vec::new(),
            crashed: false,
        };
        assert(r@ =~= fresh_runner());
        r
    }

    /// A copy of the game.
    pub fn duplicate(&self) -> (r: Self)
        ensures
            r@ == self@,
    {
        let mut obstacles: Vec<Obstacle> = Vec::new();
        let mut i: usize = 0;
        while i < self.obstacles.len()
            invariant
                i <= self.obstacles@.len(),
                obstacles@ == self.obstacles@.subrange(0, i as int),
            decreases self.obstacles@.len() - i,
        {
            obstacles.push(self.obstacles[i]);
            assert(obstacles@ =~= self.obstacles@.subrange(0, i + 1));
            i = i + 1;
        }
        assert(obstacles@ =~= self.obstacles@);
        RunnerGame {
            tick: self.tick,
            score: self.score,
            runner_y: self.runner_y,
            velocity: self.velocity,
            viewport_width: self.viewport_width,
            obstacles,
            crashed: self.crashed,
        }
    }

    pub fn score(&self) -> (r: u64)
        ensures
            r == self@.score,
    {
        self.score
    }

    pub fn tick_count(&self) -> (r: u64)
        ensures
            r == self@.tick,
    {
        self.tick
    }

    pub fn runner_y(&self) -> (r: i16)
        ensures
            r == self@.runner_y,
    {
        self.runner_y
    }

    pub fn obstacles(&self) -> (r: &[Obstacle])
        ensures
            r@ == self@.obstacles,
    {
        self.obstacles.as_slice()
    }

    pub fn crashed(&self) -> (r: bool)
        ensures
            r == self@.crashed,
    {
        self.crashed
    }

    /// Advances the game by one tick (see `runner_step`).
    pub fn tick(&mut self)
        requires
            runner_wf(old(self)@),
        ensures
            final(self)@ == runner_step(old(self)@),
            runner_wf(final(self)@),
    {
        if self.crashed {
            return;
        }
        self.tick = if self.tick == u64::MAX {
            self.tick
        } else {
            self.tick + 1
        };
        self.score = if self.score == u64::MAX {
            self.score
        } else {
            self.score + 1
        };
        if self.runner_y > 0 || self.velocity > 0 {
            self.runner_y = self.runner_y + self.velocity;
            self.velocity = self.velocity - 1;
            if self.runner_y <= 0 {
                self.runner_y = 0;
                self.velocity = 0;
            }
        }
        let ghost before = self.obstacles@;
        assert forall|k: int| 0 <= k < before.len() implies obstacle_ok(#[trigger] before[k]) by {
            assert(before[k] == old(self)@.obstacles[k]);
        }
        let ghost (py, pv) = physics_step(old(self)@.runner_y as int, old(self)@.velocity as int);
        assert(self.runner_y == py && self.velocity == pv);
        let mut kept: Vec<Obstacle> = Vec::new();
        let mut i: usize = 0;
        assert(before.take(0) =~= Seq::<Obstacle>::empty());
        while i < self.obstacles.len()
            invariant
                i <= self.obstacles@.len(),
                self.obstacles@ == before,
                forall|k: int| 0 <= k < before.len() ==> obstacle_ok(#[trigger] before[k]),
                kept@ == scroll(before.take(i as int)),
                forall|k: int| 0 <= k < kept@.len() ==> obstacle_ok(#[trigger] kept@[k]),
            decreases self.obstacles@.len() - i,
        {
            let o = self.obstacles[i];
            assert(before.take(i + 1).drop_last() =~= before.take(i as int));
            assert(before.take(i + 1).last() == o);
            let moved = Obstacle { x: o.x - 1, width: o.width, kind: o.kind };
            if moved.x + moved.width > 0 {
                kept.push(moved);
            }
            i = i + 1;
        }
        assert(before.take(i as int) =~= before);
        if self.should_spawn_obstacle() {
            let kind = if (self.tick / 29) % 2 == 0 {
                ObstacleKind::Cactus
            } else {
                ObstacleKind::Rock
            };
            let width = (2 + ((self.tick / 37) % 2)) as i16;
            kept.push(Obstacle { x: self.spawn_x(), width, kind });
        }
        self.obstacles = kept;
        let mut crashed = false;
        let mut k: usize = 0;
        while k < self.obstacles.len()
            invariant
                k <= self.obstacles@.len(),
                crashed == exists|j: int|
                    0 <= j < k && hits(#[trigger] self.obstacles@[j], self.runner_y),
                forall|j: int| 0 <= j < self.obstacles@.len() ==> obstacle_ok(#[trigger] self.obstacles@[j]),
            decreases self.obstacles@.len() - k,
        {
            let o = self.obstacles[k];
            if o.x <= 5 && o.x + o.width >= 4 && self.runner_y == 0 {
                crashed = true;
            }
            k = k + 1;
        }
        self.crashed = crashed;
        let ghost expect = runner_step(old(self)@);
        assert(self.tick == expect.tick);
        assert(self.score == expect.score);
        assert(self.runner_y == expect.runner_y);
        assert(self.velocity == expect.velocity);
        assert(self.obstacles@ =~= expect.obstacles);
        assert(self.crashed == any_hit(self.obstacles@, self.runner_y));
        assert(self.crashed == expect.crashed);
        assert(self@ =~= runner_step(old(self)@));
    }

    /// Whether an obstacle appears on the current tick.
    fn should_spawn_obstacle(&self) -> (r: bool)
        ensures
            r == spawn_due(self.tick, self.score),
    {
        if self.tick < 8 {
            return false;
        }
        let step = if self.score / 180 < 10 {
            self.score / 180
        } else {
            10
        };
        let interval = 28 - step;
        self.tick % interval == 0
    }

    /// The column where new obstacles appear.
    fn spawn_x(&self) -> (r: i16)
        requires
            32 <= self.viewport_width,
        ensures
            r == spawn_column(self.viewport_width),
            24 <= r <= 32761,
    {
        let s = self.viewport_width - 6;
        if s < 24 {
            24
        } else {
            s
        }
    }

    /// Jumps, or starts over after a crash (see `runner_jump`).
    pub fn jump_or_restart(&mut self)
        requires
            runner_wf(old(self)@),
        ensures
            final(self)@ == runner_jump(old(self)@),
            runner_wf(final(self)@),
    {
        if self.crashed {
            *self = RunnerGame::new();
            return;
        }
        if self.runner_y == 0 {
            self.velocity = 5;
        }
        assert(self@ =~= runner_jump(old(self)@));
        assert(physics_ok(self.runner_y as int, self.velocity as int));
    }

    /// Fits the game to a terminal `width` columns wide.
    pub fn set_viewport_width(&mut self, width: u16)
        requires
            runner_wf(old(self)@),
        ensures
            final(self)@ == (RunnerView { viewport_width: viewport_for(width), ..old(self)@ }),
            runner_wf(final(self)@),
    {
        let scaled: u32 = if (width as u32) * 72 > 65535 {
            65535
        } else {
            (width as u32) * 72
        };
        let popup = (scaled / 100) as i16;
        self.viewport_width = if popup - 4 < 32 {
            32
        } else {
            popup - 4
        };
    }
}

} // verus!
